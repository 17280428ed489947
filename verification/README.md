# shairport-sync-rs

An AirPlay audio receiver built on the `shairplay` crate. The library in
`src/` holds the receiver's own logic with Verus contracts:

- `config`: defaults, the layering of config file and command line, and the
  validation rules (`AppConfig::load`, `AppConfig::validate`).
- `pairing_store`: controller keys and the identity seed kept as hex text,
  with the laws that a stored key or seed reads back unchanged.
- `singleton`: the lock file name derived from the receiver name and port.
- `audio`: the choice of sink, the device and path the sinks open, PCM byte
  packing, and the whole-frame stepping used for ALSA writes.
- `text`: Unicode whitespace, trimming and decimal rendering.

`app/` is the executable: argument parsing (clap), TOML reading (serde,
toml), the instance lock (fs2), the AirPlay server and its audio sessions
(shairplay, alsa), float quantization of samples, and logging (tracing).
