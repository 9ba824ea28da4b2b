# danmu

Watches a live room, or runs one: it reads the comments and visits that a room's websocket
sends, tells the user about them, and starts and ends a stream.

* `src/` is the library, verified with Verus: packets and the frames that carry them
  (`ws_protocol`), what is done about a packet (`event`), the cookie, the addresses and the
  forms of the requests (`cookie`, `room`, `model`), and what these stand on: JSON values,
  text and bytes (`json`, `text`, `wire`).
* `app/` is the program around it: arguments, requests, the websocket and notifications.
* `tests/` runs the library on concrete values.

What the library takes from other crates without proof stands in functions marked
`external_body`, with two `assume_specification` items and a few declared types: reading and
writing numbers (`byteorder`), decompression (`flate2`, `brotli`), JSON text (`serde_json`),
the text of a websocket message (`tokio-tungstenite`), the clock (`chrono`), and
`String::from_utf8` with the bytes that its error keeps. Their doc comments say what is believed of each.

The functions that need their input to be well-formed (`Packet::from_bytes`,
`Packet::from_ws_message`, `Packet::reaction`) say so in `requires`; beside each stands one
whose name starts with `checked_`, which takes any input.
