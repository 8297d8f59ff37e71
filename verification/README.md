# boltsnap

Screenshots, recordings, a shelf for both, and a replay buffer, for Linux and Windows.

* `src/` is the library. What boltsnap decides and computes without floating-point numbers is here,
  with a contract that Verus proves: the command line, the settings, the messages between the
  program and its daemon, what is done with pixels, the selector, the tray, the clipboard, and the
  replay with its worker.
  `src/linux/` and `src/windows/` hold what differs between the two systems.
* `app/` is the program on Linux. It reads, writes, connects and waits, and asks the library what
  follows.
* `tests/` runs the library on given values.

The library reads and prints JSON with `serde_json`, TOML with `toml`, and pictures with `image`.
What is taken on trust of these crates stands in `src/json.rs`, `src/toml_text.rs` and
`src/picture.rs`, and of std in `src/text.rs`: each function there that is not verified says what it
calls and what it claims.

Places on a screen are counted in 256ths of a pixel, and a scale is a fraction, so that nothing in
the library rests on floating-point numbers. A moment is a number of nanoseconds on a clock that the
caller reads.
