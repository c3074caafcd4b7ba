# StreamShare

StreamShare shares a screen with the other users of a server: a client
captures its desktop with FFmpeg, encodes it as H.264, cuts the frames into
QUIC datagrams and sends them; the other clients put the frames back
together, decode them and show them in a window. A reliable QUIC stream
carries the login and the control packets. An earlier TCP/UDP transport is
kept beside it.

The library (`src/`) is written in Verus, and Verus proves its code
against the contracts it states. The few calls into other crates (SHA-256
digests, UTF-8 decoding, random numbers) are trusted: each stands behind a
small wrapper whose contract says what that crate promises, and a random
challenge is promised nothing beyond its 32 bytes.

- `protocol`: the wire formats (control packets, TCP packets, video
  fragments, datagrams) with their encoders and decoders, and the laws that
  decoding an encoded packet gives it back.
- `media`: Annex-B start codes and NAL units, cutting the encoder's byte
  stream into units and access units, fragmenting frames and reassembling
  them, the FFmpeg command lines and settings checks, and the broadcasting
  flag.
- `network`: SHA-256 certificate fingerprints (reading, writing, checking a
  server's certificate) and length-prefixed control packets.
- `server`: who is connected and streaming, which notifications each change
  sends to whom, where video goes, the challenge and response of the TCP
  login, the QUIC login answer, and the server configuration.
- `client`: the client configuration, the login exchange, which packet each
  command becomes and which event each server packet becomes, and the state
  the control tasks share.
- `ui`: what the window knows and how each network event changes it.

The program (`app/`) is ordinary Rust around the library: the command line,
configuration files, QUIC and TLS endpoints, the FFmpeg processes, the tasks
and threads that move bytes, and the egui window.

The tests (`tests/`) run the library on concrete values.
