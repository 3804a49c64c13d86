rdesk
=====

Remote desktop for a live X11 screen. `rdesk-rdp` is an RDP server: it streams
the screen as H.264 to clients that take it, as planar rectangles or bitmap
updates to those that do not, and injects their mouse and keyboard.
`rdesk-server` and `rdesk-client` are an older pair with a small protocol of
its own over an encrypted link.

Layout
------

    src/    the library: everything that decides or computes, verified with Verus
    tests/  its tests
    app/    the programs: sockets, the X server, ffmpeg and the RDP stack

The library performs no I/O. Where a loop alternates between decisions and the
outside world, the library holds a state machine that says what to do next and
takes what came of it: `capture` (the capture loop), `stream` (one RDP client's
frames), `serve` and `listen` (one client of the older protocol, what it gets and
what it sends), `avi` (ffmpeg's output), `mode` (bitmap updates).

    args        command lines           listen   older protocol, client's input
    avi         AVI reader              login    who may log in
    caps        GFX capabilities        mode     how frames reach a client
    capture     capture loop            noise    the outside cryptography
    characters  characters and keysyms  pdu      frames of rectangles
    client      viewer input            serve    older protocol, server side
    coding      rectangles on the wire  session  one client's size and picture
    command     ffmpeg and openssl      stream   RDP frames
    cursor      pointer overlay         text     strings and numbers
    input       X events                tiles    dirty rectangles
    keys        scancodes and keysyms   typing   characters and keys
    link        encrypted link          view     scaling and panning
                                        wire     older protocol, messages

What is taken on trust is in `noise` (the `snow` and `sha2` crates), in `coding`
(run-length coding, by the `ironrdp-graphics` crate), in `pdu` (messages and
segments, by `ironrdp-egfx` and `ironrdp-graphics`) and in `login` (lower case).

The programs have two roots: app/main.rs holds both servers, and app/client.rs
the viewer, which needs the `minifb` crate besides those of Cargo.toml.

Diagnostics of rdesk-rdp, by environment variables:

    RDESK_TRACE=1             log each GFX flush
    RDESK_TEST=uncompressed   a test bitmap in place of the screen, without codec
    RDESK_PLANAR=rle|raw|off  run-length planes, raw planes, uncompressed
    RDESK_BUDGET=BYTES        bytes of rectangles per frame (1 MiB)
    RDESK_INFLIGHT=N          frames of rectangles in flight (2)
