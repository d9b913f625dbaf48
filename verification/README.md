# monora

The verified core of Monora, a Windows screen recorder that captures
monitors with system and microphone audio and encodes them to MP4.

- `src/` is the library, checked by Verus: the data model and quality
  presets, the table of monitor handles (`id_map`), monitor description and
  capture-target resolution (`capture`), compositing monitor frames onto one
  canvas (`compositor`), preview encoding (`preview`), the recording list
  (`library`), the session state machine, file naming and loop timing
  (`session`), Media Foundation stream settings (`muxer`), audio framing
  (`audio`), log lines (`logging`) and clock conversion (`timestamps`).
- `app/` is the Tauri application around it: commands, tray and shortcut,
  DXGI capture, WASAPI audio, Media Foundation encoding, files and settings.
- `tests/` runs the library on concrete inputs.
