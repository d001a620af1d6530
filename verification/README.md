# MyMusic DAW core

The verified core of a small digital audio workstation, written in Verus.

`src/` is the library, its functions proved against their contracts. The
exceptions are the small functions marked `#[verifier::external_body]`
that call into std, `ringbuf`, `uuid`, `base64` and `libloading`: their
contracts are trusted, and each states only what that call's documentation
or source shows.

The modules:

- `midi`: decoding raw MIDI messages, the decisions of the MIDI connection
  monitor (reconnection with exponential backoff, fallback to the first
  device) and the descriptions of input ports.
- `connection`: the reconnection strategy and the device status.
- `messaging`, `control`, `command`: messages to the audio thread, the
  checks on user requests, and undoable commands with their history.
- `audio`: the routing graph (cycle refusal, Kahn's processing order),
  the transport, memory leak reports, profiling statistics, export
  settings, devices.
- `plugin`: plugin descriptors, CLAP descriptor conversion and version
  checks, the start-up and processing decisions of a CLAP instance, the
  plugin host's registry of loaded plugins and instances, the scanner's
  cache and blacklist, MIDI controller mappings, and whether an editor
  window can be shown.
- `events`: the event emitter that holds events until the interface attaches.
- `window_utils`: window handles as base64 text.
- `text`: decimal rendering, substring search and replacement on text.

Laws that span several calls are public proof functions named `law_*`.

`app/` wires the library to the audio and MIDI systems, the files on disk,
plugin libraries and the user interface; it is ordinary Rust.
`tests/` exercises the library on concrete values.
