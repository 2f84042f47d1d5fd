//! Text primitives over `Seq<char>`: trimming, searching, splitting, and the
//! decimal notation of integers.
use vstd::prelude::*;
use vstd::string::StringExecFns;

verus! {

/// `String::push` appends one character to the end of the string.
pub assume_specification[ String::push ](s: &mut String, c: char)
    ensures
        final(s)@ == old(s)@.push(c),
;

/// What `str::to_lowercase` returns for a text.
pub uninterp spec fn lowercase(s: Seq<char>) -> Seq<char>;

/// `str::to_lowercase`: the Unicode lowercase form of the text, a function of
/// the text alone.
#[verifier::external_body]
pub(crate) fn to_lowercase(s: &str) -> (r: String)
    ensures
        r@ == lowercase(s@),
{
    s.to_lowercase()
}

/// The code points with the Unicode `White_Space` property.
pub open spec fn is_space(c: char) -> bool {
    let n = c as u32;
    ||| 0x9 <= n <= 0xd
    ||| n == 0x20
    ||| n == 0x85
    ||| n == 0xa0
    ||| n == 0x1680
    ||| 0x2000 <= n <= 0x200a
    ||| n == 0x2028
    ||| n == 0x2029
    ||| n == 0x202f
    ||| n == 0x205f
    ||| n == 0x3000
}

/// Whether `c` is white space.
pub fn char_is_space(c: char) -> (r: bool)
    ensures
        r == is_space(c),
{
    let n: u32 = c as u32;
    (0x9 <= n && n <= 0xd) || n == 0x20 || n == 0x85 || n == 0xa0 || n == 0x1680 || (0x2000 <= n
        && n <= 0x200a) || n == 0x2028 || n == 0x2029 || n == 0x202f || n == 0x205f || n == 0x3000
}

/// The characters of a text.
pub fn to_chars(s: &str) -> (r: Vec<char>)
    ensures
        r@ == s@,
{
    let mut out: Vec<char> = Vec::new();
    for c in it: s.chars()
        invariant
            out@ == s@.take(it.index() as int),
            it.seq() == s@,
    {
        out.push(c);
        assert(s@.take(it.index() as int + 1) =~= s@.take(it.index() as int).push(c));
    }
    assert(s@.take(s@.len() as int) =~= s@);
    out
}

/// The text made of `chars[from..to]`.
pub fn from_range(chars: &Vec<char>, from: usize, to: usize) -> (r: String)
    requires
        from <= to <= chars@.len(),
    ensures
        r@ == chars@.subrange(from as int, to as int),
{
    let mut out: String = String::new();
    let mut i: usize = from;
    while i < to
        invariant
            from <= i <= to <= chars@.len(),
            out@ == chars@.subrange(from as int, i as int),
        decreases to - i,
    {
        out.push(chars[i]);
        assert(chars@.subrange(from as int, i as int + 1) =~= chars@.subrange(
            from as int,
            i as int,
        ).push(chars@[i as int]));
        i += 1;
    }
    out
}

/// The text made of `chars`.
pub fn from_chars(chars: &Vec<char>) -> (r: String)
    ensures
        r@ == chars@,
{
    let r = from_range(chars, 0, chars.len());
    assert(chars@.subrange(0, chars@.len() as int) =~= chars@);
    r
}

/// An owned copy of a text.
pub fn owned(s: &str) -> (r: String)
    ensures
        r@ == s@,
{
    s.to_owned()
}

/// Two texts joined.
pub fn joined(a: &str, b: &str) -> (r: String)
    ensures
        r@ == a@ + b@,
{
    let mut r: String = owned(a);
    r.append(b);
    r
}

/// Three texts joined.
pub fn joined3(a: &str, b: &str, c: &str) -> (r: String)
    ensures
        r@ == a@ + b@ + c@,
{
    let mut r: String = joined(a, b);
    r.append(c);
    r
}

/// Whether two texts are the same.
pub fn same(a: &str, b: &str) -> (r: bool)
    ensures
        r == (a@ == b@),
{
    let x: Vec<char> = to_chars(a);
    let y: Vec<char> = to_chars(b);
    if x.len() != y.len() {
        return false;
    }
    let mut i: usize = 0;
    while i < x.len()
        invariant
            x@ == a@,
            y@ == b@,
            x@.len() == y@.len(),
            i <= x@.len(),
            forall|k: int| 0 <= k < i ==> x@[k] == y@[k],
        decreases x@.len() - i,
    {
        if x[i] != y[i] {
            return false;
        }
        i += 1;
    }
    assert(x@ =~= y@);
    true
}

/// Whether `needle` stands in `hay` at position `at`.
pub open spec fn occurs_at(hay: Seq<char>, needle: Seq<char>, at: int) -> bool {
    0 <= at && at + needle.len() <= hay.len() && hay.subrange(at, at + needle.len()) == needle
}

/// Whether `needle` stands somewhere in `hay`.
pub open spec fn includes(hay: Seq<char>, needle: Seq<char>) -> bool {
    exists|at: int| occurs_at(hay, needle, at)
}

/// Whether `hay` begins with `prefix`.
pub open spec fn begins(hay: Seq<char>, prefix: Seq<char>) -> bool {
    occurs_at(hay, prefix, 0)
}

/// Whether `hay` ends with `suffix`.
pub open spec fn ends(hay: Seq<char>, suffix: Seq<char>) -> bool {
    occurs_at(hay, suffix, hay.len() - suffix.len())
}

fn matches_at(x: &Vec<char>, y: &Vec<char>, at: usize) -> (r: bool)
    ensures
        r == occurs_at(x@, y@, at as int),
{
    if y.len() > x.len() || at > x.len() - y.len() {
        return false;
    }
    let mut i: usize = 0;
    while i < y.len()
        invariant
            i <= y@.len(),
            at + y@.len() <= x.len(),
            forall|k: int| 0 <= k < i ==> x@[at + k] == y@[k],
        decreases y@.len() - i,
    {
        if x[at + i] != y[i] {
            assert(x@.subrange(at as int, at + y@.len())[i as int] != y@[i as int]);
            return false;
        }
        i += 1;
    }
    assert(x@.subrange(at as int, at + y@.len()) =~= y@);
    true
}

/// Whether `hay` contains `needle`.
pub fn contains(hay: &str, needle: &str) -> (r: bool)
    ensures
        r == includes(hay@, needle@),
{
    let x: Vec<char> = to_chars(hay);
    let y: Vec<char> = to_chars(needle);
    if y.len() > x.len() {
        return false;
    }
    let last: usize = x.len() - y.len();
    let mut at: usize = 0;
    while at <= last
        invariant
            x@ == hay@,
            y@ == needle@,
            last == x@.len() - y@.len(),
            at <= last + 1,
            forall|k: int| 0 <= k < at ==> !occurs_at(x@, y@, k),
        decreases last + 1 - at,
    {
        if matches_at(&x, &y, at) {
            return true;
        }
        if at == last {
            return false;
        }
        at += 1;
    }
    false
}

/// Whether `hay` begins with `prefix`.
pub fn starts_with(hay: &str, prefix: &str) -> (r: bool)
    ensures
        r == begins(hay@, prefix@),
{
    matches_at(&to_chars(hay), &to_chars(prefix), 0)
}

/// Whether `hay` ends with `suffix`.
pub fn ends_with(hay: &str, suffix: &str) -> (r: bool)
    ensures
        r == ends(hay@, suffix@),
{
    let x: Vec<char> = to_chars(hay);
    let y: Vec<char> = to_chars(suffix);
    if y.len() > x.len() {
        return false;
    }
    matches_at(&x, &y, x.len() - y.len())
}

/// A text without its leading white space.
pub open spec fn trim_left(s: Seq<char>) -> Seq<char>
    decreases s.len(),
{
    if s.len() > 0 && is_space(s[0]) {
        trim_left(s.skip(1))
    } else {
        s
    }
}

/// A text without its trailing white space.
pub open spec fn trim_right(s: Seq<char>) -> Seq<char>
    decreases s.len(),
{
    if s.len() > 0 && is_space(s.last()) {
        trim_right(s.drop_last())
    } else {
        s
    }
}

/// A text without leading and trailing white space.
pub open spec fn trimmed(s: Seq<char>) -> Seq<char> {
    trim_right(trim_left(s))
}

/// Whether a text is made of white space alone.
pub open spec fn blank(s: Seq<char>) -> bool {
    forall|i: int| 0 <= i < s.len() ==> is_space(#[trigger] s[i])
}

proof fn trim_left_from(s: Seq<char>, k: int)
    requires
        0 <= k <= s.len(),
        forall|i: int| 0 <= i < k ==> is_space(#[trigger] s[i]),
    ensures
        trim_left(s) == trim_left(s.skip(k)),
    decreases k,
{
    if k > 0 {
        assert(s.skip(1).skip(k - 1) =~= s.skip(k));
        assert forall|i: int| 0 <= i < k - 1 implies is_space(#[trigger] s.skip(1)[i]) by {
            assert(s.skip(1)[i] == s[i + 1]);
        }
        trim_left_from(s.skip(1), k - 1);
    } else {
        assert(s.skip(0) =~= s);
    }
}

proof fn trim_right_from(s: Seq<char>, k: int)
    requires
        0 <= k <= s.len(),
        forall|i: int| k <= i < s.len() ==> is_space(#[trigger] s[i]),
    ensures
        trim_right(s) == trim_right(s.take(k)),
    decreases s.len() - k,
{
    if k < s.len() {
        assert(s.drop_last().take(k) =~= s.take(k));
        trim_right_from(s.drop_last(), k);
    } else {
        assert(s.take(k) =~= s);
    }
}

/// Trimming leaves nothing exactly of a blank text.
pub proof fn trimmed_is_empty_iff_blank(s: Seq<char>)
    ensures
        trimmed(s).len() == 0 <==> blank(s),
    decreases s.len(),
{
    if s.len() > 0 && is_space(s[0]) {
        trimmed_is_empty_iff_blank(s.skip(1));
        assert forall|i: int| blank(s.skip(1)) && 0 <= i < s.len() implies is_space(
            #[trigger] s[i],
        ) by {
            if i > 0 {
                assert(s.skip(1)[i - 1] == s[i]);
            }
        }
        assert forall|i: int| blank(s) && 0 <= i < s.len() - 1 implies is_space(
            #[trigger] s.skip(1)[i],
        ) by {
            assert(s.skip(1)[i] == s[i + 1]);
        }
    } else if s.len() > 0 {
        trim_right_keeps_head(s);
    }
}

proof fn trim_right_keeps_head(s: Seq<char>)
    requires
        s.len() > 0,
        !is_space(s[0]),
    ensures
        trim_right(s).len() > 0,
    decreases s.len(),
{
    if is_space(s.last()) {
        assert(s.drop_last()[0] == s[0]);
        trim_right_keeps_head(s.drop_last());
    }
}

/// A text without leading and trailing white space.
pub fn trim(s: &str) -> (r: String)
    ensures
        r@ == trimmed(s@),
{
    let x: Vec<char> = to_chars(s);
    let mut from: usize = 0;
    while from < x.len() && char_is_space(x[from])
        invariant
            from <= x@.len(),
            forall|i: int| 0 <= i < from ==> is_space(#[trigger] x@[i]),
        decreases x@.len() - from,
    {
        from += 1;
    }
    proof {
        trim_left_from(x@, from as int);
        assert(from < x@.len() ==> x@.skip(from as int)[0] == x@[from as int]);
    }
    let mut to: usize = x.len();
    while to > from && char_is_space(x[to - 1])
        invariant
            from <= to <= x@.len(),
            forall|i: int| to <= i < x@.len() ==> is_space(#[trigger] x@[i]),
        decreases to,
    {
        to -= 1;
    }
    proof {
        let t = x@.skip(from as int);
        assert forall|i: int| to - from <= i < t.len() implies is_space(#[trigger] t[i]) by {
            assert(t[i] == x@[from + i]);
        }
        trim_right_from(t, to - from);
        assert(t.take(to - from) =~= x@.subrange(from as int, to as int));
        assert(to > from ==> t.take(to - from).last() == x@[to - 1]);
    }
    from_range(&x, from, to)
}

/// Whether a text is made of white space alone.
pub fn is_blank(s: &str) -> (r: bool)
    ensures
        r == blank(s@),
{
    let x: Vec<char> = to_chars(s);
    let mut i: usize = 0;
    while i < x.len()
        invariant
            x@ == s@,
            i <= x@.len(),
            forall|k: int| 0 <= k < i ==> is_space(#[trigger] x@[k]),
        decreases x@.len() - i,
    {
        if !char_is_space(x[i]) {
            assert(!is_space(s@[i as int]));
            return false;
        }
        i += 1;
    }
    true
}

/// Position of the first `c` in `s` at or after `from`; the length of `s` when
/// there is none.
pub open spec fn next_of(s: Seq<char>, c: char, from: int) -> int
    decreases s.len() - from,
{
    if from < 0 || from >= s.len() || s[from] == c {
        from
    } else {
        next_of(s, c, from + 1)
    }
}

pub proof fn next_of_bounds(s: Seq<char>, c: char, from: int)
    requires
        0 <= from <= s.len(),
    ensures
        from <= next_of(s, c, from) <= s.len(),
        next_of(s, c, from) < s.len() ==> s[next_of(s, c, from)] == c,
        forall|k: int| from <= k < next_of(s, c, from) ==> s[k] != c,
    decreases s.len() - from,
{
    if from < s.len() && s[from] != c {
        next_of_bounds(s, c, from + 1);
    }
}

fn find_from(x: &Vec<char>, c: char, from: usize) -> (r: usize)
    requires
        from <= x@.len(),
    ensures
        r == next_of(x@, c, from as int),
        from <= r <= x@.len(),
        r < x@.len() ==> x@[r as int] == c,
{
    let mut i: usize = from;
    while i < x.len() && x[i] != c
        invariant
            from <= i <= x@.len(),
            next_of(x@, c, from as int) == next_of(x@, c, i as int),
        decreases x@.len() - i,
    {
        i += 1;
    }
    i
}

/// A text cut at every `c`: one piece more than there are separators.
pub open spec fn pieces(s: Seq<char>, c: char) -> Seq<Seq<char>>
    decreases s.len(),
{
    let k = next_of(s, c, 0);
    if 0 <= k < s.len() {
        seq![s.take(k)] + pieces(s.skip(k + 1), c)
    } else {
        seq![s]
    }
}

/// What stands before the first `c` and what stands after it.
pub open spec fn cut_at(s: Seq<char>, c: char) -> Option<(Seq<char>, Seq<char>)> {
    let k = next_of(s, c, 0);
    if 0 <= k < s.len() {
        Some((s.take(k), s.skip(k + 1)))
    } else {
        None
    }
}

/// `s` cut in two at its first `c`.
pub fn split_once(s: &str, c: char) -> (r: Option<(String, String)>)
    ensures
        match r {
            Some((a, b)) => cut_at(s@, c) == Some((a@, b@)),
            None => cut_at(s@, c) is None,
        },
{
    let x: Vec<char> = to_chars(s);
    let k: usize = find_from(&x, c, 0);
    if k < x.len() {
        assert(x@.take(k as int) =~= x@.subrange(0, k as int));
        assert(x@.skip(k as int + 1) =~= x@.subrange(k as int + 1, x@.len() as int));
        Some((from_range(&x, 0, k), from_range(&x, k + 1, x.len())))
    } else {
        None
    }
}

/// The views of a list of texts.
pub open spec fn views(v: Seq<String>) -> Seq<Seq<char>> {
    v.map_values(|s: String| s@)
}

/// `s` cut at every `c`.
pub fn split(s: &str, c: char) -> (r: Vec<String>)
    ensures
        views(r@) == pieces(s@, c),
{
    let x: Vec<char> = to_chars(s);
    let mut out: Vec<String> = Vec::new();
    let mut at: usize = 0;
    assert(x@.skip(0) =~= x@);
    assert(views(out@) + pieces(x@, c) =~= pieces(x@, c));
    loop
        invariant
            x@ == s@,
            at <= x@.len(),
            views(out@) + pieces(x@.skip(at as int), c) == pieces(s@, c),
        decreases x@.len() - at,
    {
        let k: usize = find_from(&x, c, at);
        let ghost rest = x@.skip(at as int);
        proof {
            next_of_shift(x@, c, at as int, at as int);
        }
        let piece: String = from_range(&x, at, k);
        proof {
            assert(views(out@.push(piece)) =~= views(out@).push(piece@));
        }
        if k < x.len() {
            proof {
                assert(rest.take(k - at) =~= piece@);
                assert(rest.skip(k - at + 1) =~= x@.skip(k + 1));
                assert(views(out@) + pieces(rest, c) =~= views(out@.push(piece)) + pieces(
                    x@.skip(k + 1),
                    c,
                ));
            }
            out.push(piece);
            at = k + 1;
        } else {
            proof {
                assert(piece@ =~= rest);
                assert(views(out@) + pieces(rest, c) =~= views(out@.push(piece)));
            }
            out.push(piece);
            return out;
        }
    }
}

/// A line without the carriage return that may close it.
pub open spec fn without_cr(s: Seq<char>) -> Seq<char> {
    if s.len() > 0 && s.last() == '\r' {
        s.drop_last()
    } else {
        s
    }
}

/// The lines of a text: cut at line feeds, a closing empty piece dropped and
/// a carriage return before a line feed dropped with it.
pub open spec fn line_list(s: Seq<char>) -> Seq<Seq<char>>
    decreases s.len(),
{
    let k = next_of(s, '\n', 0);
    if s.len() == 0 {
        Seq::empty()
    } else if 0 <= k < s.len() {
        seq![without_cr(s.take(k))] + line_list(s.skip(k + 1))
    } else {
        seq![s]
    }
}

proof fn next_of_shift(s: Seq<char>, c: char, from: int, d: int)
    requires
        0 <= d <= from <= s.len(),
    ensures
        next_of(s, c, from) == d + next_of(s.skip(d), c, from - d),
    decreases s.len() - from,
{
    if from < s.len() && s[from] != c {
        next_of_shift(s, c, from + 1, d);
    }
}

/// The lines of a text.
pub fn lines(s: &str) -> (r: Vec<String>)
    ensures
        views(r@) == line_list(s@),
{
    let x: Vec<char> = to_chars(s);
    let mut out: Vec<String> = Vec::new();
    let mut at: usize = 0;
    assert(x@.skip(0) =~= x@);
    while at < x.len()
        invariant
            x@ == s@,
            at <= x@.len(),
            views(out@) + line_list(x@.skip(at as int)) == line_list(s@),
        decreases x@.len() - at,
    {
        let k: usize = find_from(&x, '\n', at);
        let ghost rest = x@.skip(at as int);
        proof {
            next_of_shift(x@, '\n', at as int, at as int);
        }
        if k < x.len() {
            let end: usize = if k > at && x[k - 1] == '\r' { k - 1 } else { k };
            let piece: String = from_range(&x, at, end);
            proof {
                assert(rest.take(k - at) =~= x@.subrange(at as int, k as int));
                assert(without_cr(rest.take(k - at)) =~= piece@);
                assert(rest.skip(k - at + 1) =~= x@.skip(k + 1));
                assert(views(out@.push(piece)) =~= views(out@).push(piece@));
                assert(views(out@) + line_list(rest) =~= views(out@.push(piece)) + line_list(
                    x@.skip(k + 1),
                ));
            }
            out.push(piece);
            at = k + 1;
        } else {
            let piece: String = from_range(&x, at, k);
            proof {
                assert(piece@ =~= rest);
                assert(views(out@.push(piece)) =~= views(out@).push(piece@));
                assert(x@.skip(k as int) =~= Seq::<char>::empty());
                assert(views(out@) + line_list(rest) =~= views(out@.push(piece)) + line_list(
                    x@.skip(k as int),
                ));
            }
            out.push(piece);
            at = k;
        }
    }
    assert(x@.skip(at as int) =~= Seq::<char>::empty());
    assert(views(out@) + Seq::<Seq<char>>::empty() =~= views(out@));
    out
}

/// Where the run of non-space characters that starts at `from` ends.
pub open spec fn word_end(s: Seq<char>, from: int) -> int
    decreases s.len() - from,
{
    if from < 0 || from >= s.len() || is_space(s[from]) {
        from
    } else {
        word_end(s, from + 1)
    }
}

/// The maximal runs of non-space characters of a text, in order.
pub open spec fn words_from(s: Seq<char>, from: int) -> Seq<Seq<char>>
    decreases s.len() - from,
{
    if from < 0 || from >= s.len() {
        Seq::empty()
    } else if is_space(s[from]) {
        words_from(s, from + 1)
    } else {
        let end = word_end(s, from);
        if from < end <= s.len() {
            seq![s.subrange(from, end)] + words_from(s, end)
        } else {
            Seq::empty()
        }
    }
}

/// The words of a text.
pub open spec fn words(s: Seq<char>) -> Seq<Seq<char>> {
    words_from(s, 0)
}

pub proof fn word_end_bounds(s: Seq<char>, from: int)
    requires
        0 <= from <= s.len(),
    ensures
        from <= word_end(s, from) <= s.len(),
        from < s.len() && !is_space(s[from]) ==> from < word_end(s, from),
        forall|k: int| from <= k < word_end(s, from) ==> !is_space(s[k]),
    decreases s.len() - from,
{
    if from < s.len() && !is_space(s[from]) {
        word_end_bounds(s, from + 1);
    }
}

/// The words of a text.
pub fn split_whitespace(s: &str) -> (r: Vec<String>)
    ensures
        views(r@) == words(s@),
{
    let x: Vec<char> = to_chars(s);
    let mut out: Vec<String> = Vec::new();
    let mut at: usize = 0;
    while at < x.len()
        invariant
            x@ == s@,
            at <= x@.len(),
            views(out@) + words_from(x@, at as int) == words(s@),
        decreases x@.len() - at,
    {
        if char_is_space(x[at]) {
            at += 1;
        } else {
            let mut end: usize = at;
            while end < x.len() && !char_is_space(x[end])
                invariant
                    at <= end <= x@.len(),
                    word_end(x@, at as int) == word_end(x@, end as int),
                decreases x@.len() - end,
            {
                end += 1;
            }
            proof {
                word_end_bounds(x@, at as int);
            }
            let piece: String = from_range(&x, at, end);
            proof {
                assert(views(out@.push(piece)) =~= views(out@).push(piece@));
                assert(views(out@) + words_from(x@, at as int) =~= views(out@.push(piece))
                    + words_from(x@, end as int));
            }
            out.push(piece);
            at = end;
        }
    }
    assert(views(out@) + Seq::<Seq<char>>::empty() =~= views(out@));
    out
}

/// The character of a decimal digit.
pub open spec fn digit(d: int) -> char {
    if d == 0 { '0' } else if d == 1 { '1' } else if d == 2 { '2' } else if d == 3 { '3' }
    else if d == 4 { '4' } else if d == 5 { '5' } else if d == 6 { '6' } else if d == 7 { '7' }
    else if d == 8 { '8' } else { '9' }
}

fn digit_char(d: u64) -> (r: char)
    ensures
        r == digit(d as int),
{
    if d == 0 { '0' } else if d == 1 { '1' } else if d == 2 { '2' } else if d == 3 { '3' }
    else if d == 4 { '4' } else if d == 5 { '5' } else if d == 6 { '6' } else if d == 7 { '7' }
    else if d == 8 { '8' } else { '9' }
}

/// Decimal notation of a natural number.
pub open spec fn decimal(n: nat) -> Seq<char>
    decreases n,
{
    if n < 10 {
        seq![digit(n as int)]
    } else {
        decimal(n / 10).push(digit((n % 10) as int))
    }
}

/// Decimal notation of an integer.
pub open spec fn decimal_int(n: int) -> Seq<char> {
    if n < 0 {
        seq!['-'] + decimal((-n) as nat)
    } else {
        decimal(n as nat)
    }
}

/// Decimal notation of `n`.
pub fn format_u64(n: u64) -> (r: String)
    ensures
        r@ == decimal(n as nat),
    decreases n,
{
    if n < 10 {
        let mut s: String = String::new();
        s.push(digit_char(n));
        assert(s@ =~= seq![digit(n as int)]);
        s
    } else {
        let mut s: String = format_u64(n / 10);
        s.push(digit_char(n % 10));
        s
    }
}

/// Decimal notation of `n`.
pub fn format_i64(n: i64) -> (r: String)
    ensures
        r@ == decimal_int(n as int),
{
    if n >= 0 {
        format_u64(n as u64)
    } else {
        let m: u64 = if n == i64::MIN { 0x8000_0000_0000_0000 } else { (-n) as u64 };
        let mut s: String = String::new();
        s.push('-');
        let d: String = format_u64(m);
        assert(s@ =~= seq!['-']);
        s.append(d.as_str());
        s
    }
}

/// Whether `c` is one of `0`..`9`.
pub open spec fn is_digit(c: char) -> bool {
    0x30 <= c as u32 <= 0x39
}

/// Value of a decimal digit.
pub open spec fn digit_value(c: char) -> int {
    c as u32 - 0x30
}

/// Value of a run of decimal digits.
pub open spec fn digits_value(s: Seq<char>) -> nat
    decreases s.len(),
{
    if s.len() == 0 {
        0
    } else {
        (digits_value(s.drop_last()) * 10 + digit_value(s.last())) as nat
    }
}

pub open spec fn all_digits(s: Seq<char>) -> bool {
    forall|i: int| 0 <= i < s.len() ==> is_digit(#[trigger] s[i])
}

/// The integer a text denotes: an optional sign and at least one digit.
pub open spec fn int_value(s: Seq<char>) -> Option<int> {
    if s.len() > 0 && (s[0] == '-' || s[0] == '+') {
        let d = s.skip(1);
        if d.len() > 0 && all_digits(d) {
            Some(if s[0] == '-' { -(digits_value(d) as int) } else { digits_value(d) as int })
        } else {
            None
        }
    } else if s.len() > 0 && all_digits(s) {
        Some(digits_value(s) as int)
    } else {
        None
    }
}

/// Value of the digits `x[from..]`, or nothing when one of them is no digit,
/// there is none, or the value is above `2^64 - 1`.
fn digits_from(x: &Vec<char>, from: usize) -> (r: Option<u64>)
    requires
        from <= x@.len(),
    ensures
        match r {
            Some(v) => x@.skip(from as int).len() > 0 && all_digits(x@.skip(from as int)) && v
                == digits_value(x@.skip(from as int)),
            None => x@.skip(from as int).len() == 0 || !all_digits(x@.skip(from as int))
                || digits_value(x@.skip(from as int)) > u64::MAX,
        },
{
    if from == x.len() {
        return None;
    }
    let mut v: u64 = 0;
    let mut over: bool = false;
    let mut i: usize = from;
    let ghost t = x@.skip(from as int);
    while i < x.len()
        invariant
            from <= i <= x@.len(),
            t == x@.skip(from as int),
            all_digits(t.take(i - from)),
            !over ==> v == digits_value(t.take(i - from)),
            over ==> digits_value(t.take(i - from)) > u64::MAX,
        decreases x@.len() - i,
    {
        let c: char = x[i];
        let n: u32 = c as u32;
        assert(t[i - from] == c);
        if n < 0x30 || n > 0x39 {
            assert(!is_digit(t[i - from]));
            return None;
        }
        assert(t.take(i - from + 1).drop_last() =~= t.take(i - from));
        assert forall|k: int| 0 <= k < i - from + 1 implies is_digit(
            #[trigger] t.take(i - from + 1)[k],
        ) by {
            if k < i - from {
                assert(t.take(i - from)[k] == t[k]);
            }
        }
        let d: u64 = (n - 0x30) as u64;
        if !over {
            if v > (u64::MAX - d) / 10 {
                over = true;
            } else {
                v = v * 10 + d;
            }
        }
        i += 1;
    }
    assert(t.take(x@.len() - from) =~= t);
    if over { None } else { Some(v) }
}

/// The integer `s` denotes, when it fits in an `i64`.
pub fn parse_i64(s: &str) -> (r: Option<i64>)
    ensures
        match r {
            Some(v) => int_value(s@) == Some(v as int),
            None => match int_value(s@) {
                Some(n) => n < i64::MIN || n > i64::MAX,
                None => true,
            },
        },
{
    let x: Vec<char> = to_chars(s);
    if x.len() == 0 {
        return None;
    }
    if x[0] == '-' || x[0] == '+' {
        let neg: bool = x[0] == '-';
        match digits_from(&x, 1) {
            Some(v) => {
                if neg {
                    if v <= 0x7fff_ffff_ffff_ffff {
                        Some(-(v as i64))
                    } else if v == 0x8000_0000_0000_0000 {
                        Some(i64::MIN)
                    } else {
                        None
                    }
                } else if v <= 0x7fff_ffff_ffff_ffff {
                    Some(v as i64)
                } else {
                    None
                }
            },
            None => None,
        }
    } else {
        assert(x@.skip(0) =~= x@);
        match digits_from(&x, 0) {
            Some(v) => {
                if v <= 0x7fff_ffff_ffff_ffff {
                    Some(v as i64)
                } else {
                    None
                }
            },
            None => None,
        }
    }
}

/// The integer `s` denotes, when it fits in an `i32`.
pub fn parse_i32(s: &str) -> (r: Option<i32>)
    ensures
        match r {
            Some(v) => int_value(s@) == Some(v as int),
            None => match int_value(s@) {
                Some(n) => n < i32::MIN || n > i32::MAX,
                None => true,
            },
        },
{
    match parse_i64(s) {
        Some(v) => if -0x8000_0000 <= v && v <= 0x7fff_ffff { Some(v as i32) } else { None },
        None => None,
    }
}

proof fn decimal_digits(n: nat)
    ensures
        decimal(n).len() > 0,
        all_digits(decimal(n)),
        digits_value(decimal(n)) == n,
    decreases n,
{
    if n < 10 {
        assert(decimal(n).drop_last() =~= Seq::<char>::empty());
        reveal_with_fuel(digits_value, 2);
    } else {
        decimal_digits(n / 10);
        assert(decimal(n).drop_last() =~= decimal(n / 10));
    }
}

/// Reading back what was written in decimal notation gives the same integer.
pub proof fn decimal_round_trip(n: int)
    ensures
        int_value(decimal_int(n)) == Some(n),
{
    if n < 0 {
        decimal_digits((-n) as nat);
        assert(decimal_int(n).skip(1) =~= decimal((-n) as nat));
    } else {
        decimal_digits(n as nat);
        assert(is_digit(decimal_int(n)[0]));
    }
}

}
