# cacophony

A runtime for Discord voice connections, with its rules proved by Verus.

`src/` is the library. It holds what a connection decides and computes: the handshake with
the voice gateway, the state that gateway events change, transport encryption of RTP packets,
reordering and reassembly of received media, packetisation of sent media for Opus, VP8, VP9,
H.264, H.265 and AV1, the coordination of the end-to-end encryption session (DAVE), playing
Opus packets every 20 ms, and the framing of PCM and Ogg Opus audio. A function
states in its contract what it returns and when it fails. Where chance has a part in that, the
contract says what holds whatever was drawn, and a function beside it takes what was drawn and
says the rest. Properties that span several functions are public proof functions named
`law_...`.

`app/` is the runtime around it: sockets, tasks, JSON, and audio as floating point numbers.
It performs what the library decides and hands back what happened. The end-to-end encryption
session itself is behind the `DaveSession` trait there; whoever connects brings one.

`tests/` runs the library with the crates that it calls.

What the proofs rest on, besides Verus and `vstd`: the contracts of the functions marked
`external_body`, each of which makes one call into another crate or the standard library and
names it in its doc comment. They are in `text`, `secrets`, `errors::words`, `media::nonce`,
`media::crypto`, `media::endpoint`, `gateway::discovery`, `gateway::command` and `opus::ogg`.
