//! WhatsApp addresses.
use vstd::prelude::*;
use std::str::FromStr;

use crate::text::{cut_at, joined, joined3, owned, same, split_once, to_chars};

verus! {

/// What `Jid::from_str` reads in a text: the user part, the name of the server,
/// and the address as it is written in full; or why the text is no address.
pub uninterp spec fn jid_read(s: Seq<char>) -> Result<(Seq<char>, Seq<char>, Seq<char>), Seq<char>>;

/// What a text says as an address: the user part, the name of the server, and
/// the address in full.
pub open spec fn jid_of(s: Seq<char>) -> Option<(Seq<char>, Seq<char>, Seq<char>)> {
    match jid_read(s) {
        Ok(parts) => Some(parts),
        Err(_) => None,
    }
}

/// A WhatsApp address.
#[derive(Debug, PartialEq, Eq)]
pub struct JidParts {
    pub user: String,
    pub server: String,
    /// The address in full, with agent and device.
    pub full: String,
}

/// `whatsapp_rust::Jid::from_str`: the user part, the server name and the
/// written form of an address, or the error in words; a function of the text
/// alone.
#[verifier::external_body]
fn read_jid(s: &str) -> (r: Result<JidParts, String>)
    ensures
        match r {
            Ok(j) => jid_read(s@) == Ok::<(Seq<char>, Seq<char>, Seq<char>), Seq<char>>(j.parts()),
            Err(e) => jid_read(s@) == Err::<(Seq<char>, Seq<char>, Seq<char>), Seq<char>>(e@),
        },
{
    match whatsapp_rust::Jid::from_str(s) {
        Ok(jid) => Ok(
            JidParts {
                user: jid.user.to_string(),
                server: jid.server.as_str().to_string(),
                full: jid.to_string(),
            },
        ),
        Err(e) => Err(e.to_string()),
    }
}

/// An address written without agent and device.
pub open spec fn bare(user: Seq<char>, server: Seq<char>) -> Seq<char> {
    if user.len() == 0 {
        server
    } else {
        user + "@"@ + server
    }
}

/// What stands before the first colon of a user part; all of it without one.
pub open spec fn user_base_of(user: Seq<char>) -> Seq<char> {
    match cut_at(user, ':') {
        Some((base, _)) => base,
        None => user,
    }
}

/// A text as an address in its bare form; any other text as it is.
pub open spec fn canonical(s: Seq<char>) -> Seq<char> {
    match jid_of(s) {
        Some((user, server, _)) => bare(user, server),
        None => s,
    }
}

/// The bare address of a phone number.
pub open spec fn pn_address(user: Seq<char>) -> Seq<char> {
    bare(user, "s.whatsapp.net"@)
}

/// What is reported of a chat whose address was read; nothing of a good one.
pub open spec fn chat_jid_error(read: Result<(Seq<char>, Seq<char>, Seq<char>), Seq<char>>) -> Option<
    Seq<char>,
> {
    match read {
        Ok(_) => None,
        Err(e) => Some("WhatsApp: invalid chat jid: "@ + e),
    }
}

/// The address of a chat that was read, or what is reported of it.
pub fn chat_address(read: Result<JidParts, String>) -> (r: Result<JidParts, String>)
    ensures
        match (read, r) {
            (Ok(j), Ok(address)) => address == j,
            (Err(e), Err(report)) => chat_jid_error(Err(e@)) == Some(report@),
            _ => false,
        },
{
    match read {
        Ok(j) => Ok(j),
        Err(e) => Err(joined("WhatsApp: invalid chat jid: ", e.as_str())),
    }
}

impl JidParts {
    pub open spec fn parts(&self) -> (Seq<char>, Seq<char>, Seq<char>) {
        (self.user@, self.server@, self.full@)
    }

    /// Reads an address.
    pub fn parse(s: &str) -> (r: Option<JidParts>)
        ensures
            match r {
                Some(j) => jid_of(s@) == Some(j.parts()),
                None => jid_of(s@) is None,
            },
    {
        match read_jid(s) {
            Ok(j) => Some(j),
            Err(_) => None,
        }
    }

    /// Reads an address that has to be one: the error names the chat's address.
    pub fn of_chat(s: &str) -> (r: Result<JidParts, String>)
        ensures
            match r {
                Ok(j) => jid_of(s@) == Some(j.parts()),
                Err(e) => chat_jid_error(jid_read(s@)) == Some(e@),
            },
    {
        chat_address(read_jid(s))
    }

    /// The address of a phone number.
    pub fn pn(user: &str) -> (r: JidParts)
        ensures
            r.parts() == (user@, "s.whatsapp.net"@, pn_address(user@)),
    {
        let mut r = JidParts {
            user: owned(user),
            server: owned("s.whatsapp.net"),
            full: String::new(),
        };
        r.full = r.to_non_ad_string();
        r
    }

    /// The address without agent and device.
    pub fn to_non_ad_string(&self) -> (r: String)
        ensures
            r@ == bare(self.user@, self.server@),
    {
        if to_chars(self.user.as_str()).len() == 0 {
            owned(self.server.as_str())
        } else {
            joined3(self.user.as_str(), "@", self.server.as_str())
        }
    }

    /// Whether the address is an opaque identity.
    pub fn is_lid(&self) -> (r: bool)
        ensures
            r == (self.server@ == "lid"@),
    {
        same(self.server.as_str(), "lid")
    }

    /// Whether the address is a phone number.
    pub fn is_pn(&self) -> (r: bool)
        ensures
            r == (self.server@ == "s.whatsapp.net"@),
    {
        same(self.server.as_str(), "s.whatsapp.net")
    }

    /// Whether the address is a group.
    pub fn is_group(&self) -> (r: bool)
        ensures
            r == (self.server@ == "g.us"@),
    {
        same(self.server.as_str(), "g.us")
    }

    /// The user part up to its first colon.
    pub fn user_base(&self) -> (r: String)
        ensures
            r@ == user_base_of(self.user@),
    {
        match split_once(self.user.as_str(), ':') {
            Some((base, _rest)) => base,
            None => owned(self.user.as_str()),
        }
    }
}

impl Clone for JidParts {
    fn clone(&self) -> (r: Self)
        ensures
            r == *self,
    {
        JidParts {
            user: self.user.clone(),
            server: self.server.clone(),
            full: self.full.clone(),
        }
    }
}

}
