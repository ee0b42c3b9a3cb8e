# speakyfi

The core of Speakyfi, a push-to-talk dictation app for Windows: hold a key,
speak, and the transcript (from a local whisper.cpp model or a cloud
provider, optionally corrected by Ollama or an OpenAI-compatible API) is
typed into the window that had the focus.

`src/` is a Verus library. Its own functions carry contracts that Verus
proves; the few calls into other crates (AES-GCM, the OS random source,
the JSON of the key store, two `String` methods) sit behind small wrappers
whose contracts are stated from those crates' sources and believed, not
proved.

- `base64` — the encoding used by the key store and for audio sent as
  text, with the proof that decoding undoes encoding.
- `crypto`, `config` — settings defaults, key material derived from the
  machine identity, AES-256-GCM sealing of provider API keys and the JSON
  key store; what `save_api_key_to_store` writes, `load_api_key_from_store`
  reads back as the same key, leaving the other providers' keys as they
  were.
- `audio` — the push-to-talk recorder (what is recorded between press and
  release comes back in order), the voice-activity segmenter, the device
  list and the resampling plan.
- `hotkeys`, `output`, `tray` — the decisions of the hotkey message loop
  (one press per hold), the keyboard events that type a text, the tray menu.
- `cloud`, `correction`, `transcriber`, `diagnostics` — provider and mode
  selection, request parameters, reply handling, model catalogue and
  checks, and the diagnostics report.
- `text` — string helpers (trim, join, decimal numerals) with their specs.

`app/` is the Tauri shell around the library: commands, file and network
I/O, audio devices, Windows APIs, JSON, and the floating-point sample
processing. `tests/` exercises the library on concrete values.
