# sender

The logic of a terminal client for Telegram and WhatsApp, verified with Verus.

- `src/` is the library. Every operation is stated over a mathematical model of
  the data it works on, and proved.
  - `backend/` holds the providers: chats, messages and errors (`mod.rs`), what
    the reports of Telegram (`telegram.rs`) and WhatsApp (`whatsapp.rs`, modelled
    in `whatsapp_model.rs`) lead to, and a provider without a network
    (`mock.rs`).
  - `tui/` holds the interface: the chat list and the open chat (`chat.rs`,
    modelled in `chat_model.rs`), searching, key handling (`ui.rs`), the event
    loop's decisions (`run.rs`), the audio session (`player.rs`), and what each
    screen draws.
  - `config.rs` reads key bindings, `audio.rs` cuts recordings into packets
    and opens voice notes, and `text.rs`, `order.rs`, `table.rs`, `layout.rs`,
    `keys.rs`, `jid.rs` and `helpers.rs` are what the others stand on.
  - The files ending in `_laws.rs` state what holds across several operations,
    and `whatsapp_invariant.rs` what every operation on an account keeps.
- `tests/` runs the library on concrete values.
- `app/` is the program around it: files, the network, the terminal and sound.
  Playing and recording need `rodio` and `cpal`, pictures need `ratatui-image`,
  and the WhatsApp session needs the `sqlite-storage`, `tokio-transport`,
  `tokio-runtime` and `ureq-client` features of `whatsapp-rust`.

What the library takes from other crates without proof is marked
`external_body` or `assume_specification`, each with the claim it makes.
