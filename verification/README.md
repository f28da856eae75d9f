# Direct Computing

A remote desktop over a direct QUIC connection. A host captures its desktop, encodes it and sends
it; a viewer shows it and sends input back.

`src/` is the library: everything that the program decides or computes, with contracts that Verus
proves. `app/` is the program around it: sockets, windows, files, the system's capture and codec
interfaces. Verus does not read `app/`.

| Module | What it holds |
| --- | --- |
| `protocol` | messages, their encoding and decoding |
| `transport` | message framing, certificate fingerprints, the file of trusted certificates |
| `auth` | password verifiers, challenges and proofs |
| `session` | the handshake that opens a session |
| `media` | frames, packets, H.264 units, the loopback pipeline, raw and OpenH264 coding |
| `desktop` | changed regions, region updates, video datagrams, rate control, input checks |
| `stream` | the two ends of a stream: what to send, what to wait for, when to change the rate |
| `file_transfer` | manifests, chunks, assembly, the two ends of a transfer |
| `ui` | the picture in the window, the remote cursor, keys, the pace of a preview |
| `platform` | what the adapters of the operating systems decide |

The functions named `law_...` state what holds of several functions together: that decoding reads
back what encoding wrote, that datagrams in any order give the frame that was sent, that the
viewer's window shows what the host captured, and so on.

The library trusts a few calls: to `sha2`, `argon2`, `rand`, `openh264` and the standard library.
Each stands in a small function of its own whose comment says what is taken for granted.
