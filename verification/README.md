# EternalMonitor

EternalMonitor turns an iPad into a second display over the local network. This
crate holds its rules, verified with Verus, and the host program around them.

- `src/wire`: the bytes that travel. The datagrams of protocol version 2 (media
  and control), the reassembly of fragments, the H.264 and HEVC bitstreams, and
  the packets of version 1.
- `src/host`: what the host decides. The client session, the bitrate, pacing,
  the supervisor of the pipeline, capture and encoder policy, input relay,
  statistics, settings and the window's panels.
- `src/bytes.rs`, `src/text.rs`: byte strings and text.
- `tests`: the library on concrete values.
- `app`: the program. Threads, sockets, the display, the codec and the window.

Every function of the library states what it returns or changes. Functions that
depend on the time take it as an argument, in nanoseconds of one monotonic
clock. Laws that relate several functions stand at the end of each module as
public proof functions.

The library trusts what the standard library documents of a few string
functions, and the builders of `flatbuffers` and `qrcode`. Each of these calls
has a wrapper that says what is taken for granted.
