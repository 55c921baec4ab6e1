# punktfunk

The decisions of a game-streaming host and of its installers, as a verified Verus library.

What the host sends, when it sends it, what it answers on the control stream, how it recovers from
a stalled encoder, which updates it takes, what a plugin may run: each is a function on plain
values whose contract says exactly what it returns, and Verus proves the code against it. The
installers are plans: what was found and what was chosen lead to a list of steps, and every line
that is shown or run is stated.

* `src/` is the library. Every item is verified. `rand`, `serde_json`, the channel of `tokio` and
  a few functions of the standard library are called through declarations whose contracts are
  trusted; each says so where it stands.
* `app/` is ordinary Rust around it: clocks, files, sockets, threads, the terminal, child
  processes, and what is computed in floating point.
* `tests/` runs the library with the real crates.

| module | what it decides |
| --- | --- |
| `civil` | calendar dates from days |
| `json` | documents as plain values |
| `native::audio`, `native::pcm` | slots and frames of the audio plane, its formats |
| `native::control` | the control stream: switches, rates, probes, the clipboard |
| `native::motion_cadence`, `native::pts_clock`, `native::pad_audio` | pad motion, capture stamps, pad sound |
| `native::stream` | encode loop, pipeline depth, capture bookkeeping, speed probe, send thread, test sources, session watch |
| `native_pairing::store` | paired devices and their access |
| `net_health` | route and link changes, netlink messages |
| `pad_feed` | the pad mirror |
| `plugins` | the plugin command, its manifest's rules, and paths by the rules of either system |
| `power` | power verbs |
| `send_pacing` | bursts, chunks and sleeps of a frame's packets, the capture credit |
| `setup`, `setup_win` | the installers: plan, executor, report, terminal screens, wizard |
| `stats_recorder` | captures and their samples |
| `text` | the text functions the others rest on |
| `update` | the update feed, its floor, and applying it |
