# read_this

The logic of Read This, a Windows tray app that reads highlighted text aloud
with Edge neural voices, as a library verified with Verus.

- `src/` — the verified library:
  - `status`: the reading status (`Idle`, `Reading`, `FetchingVoice`, `Error`).
  - `settings`: the user's settings and their defaults.
  - `text`: white space, trimming, prefixes, substrings, code-point order, numerals.
  - `ssml`: escaping text for SSML, with proofs that nothing is lost and no markup remains.
  - `encoding`: UTF-16LE and base64 (through the `base64` crate), making PowerShell's `-EncodedCommand`.
  - `voices`: choosing the voice for a request; listing the English voices, stably sorted by label.
  - `speech`: the `edge-tts` command line, the Edge service request, combining the two engines,
    the plan after synthesis, and the script of the local Windows voice.
  - `session`: the reader's state machine (status, current player, local voice) and its laws.
  - `input`: tray menu, shortcut edge detection, simulated Ctrl+C, clipboard acceptance.
- `tests/` — tests of the library on concrete values.
- `app/` — the Tauri application around the library: windows, tray, global shortcut,
  clipboard, processes, audio playback and the settings file.
