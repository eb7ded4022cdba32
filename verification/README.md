# voicechat

The logic of a voice companion app, verified with Verus: characters with a
persona and a voice, long-term memory folded from conversations, a realtime
voice session's turn-taking, subtitles, backups and shareable character
files.

- `src/` is the library. Every function there has a contract that Verus
  proves; calls into outside crates (base64, uuid, chrono) go through small
  trusted wrappers whose contracts say what those crates document.
  - `session` decides, event by event, what the realtime session sends,
    plays, shows and stores, and when it reconnects.
  - `memory` and `prompt` build what the model is told: the memory block
    within its budget, the summary and title requests, the instructions.
  - `backup`, `share` and `checks` decide which files are accepted and what
    is made of them; `avatar` and `voice::sample` recognise pictures and
    recordings by their bytes and name the files they are kept in.
  - `subtitle` cuts a streaming reply into sentences for translation.
  - `commands`, `character`, `dashscope`, `llm`, `image`, `secrets` hold the
    rules behind settings, characters, endpoints and error messages.
- `tests/` runs the library on concrete values.
- `app/` is a command-line program around the library: the SQLite store,
  files on disk, the keyring, HTTP and WebSocket calls, and audio
  arithmetic. It talks to a character from a WAV file and writes the reply
  to one: the live microphone and speaker (cpal), and the desktop window,
  tray, global hotkey, subtitle overlay and updater (Tauri) are not part of
  it: those crates need the ALSA and WebKit system libraries.
