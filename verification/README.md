# typr

Typr is a dictation app: a hotkey starts a recording, the speech is transcribed locally
(whisper.cpp) or in the cloud (Groq), optionally rewritten by a language model, and pasted into
the focused app. Every dictation is kept in a history.

`src/` is the verified library. Its contracts state what each function returns:

- `settings`, `transforms`, `languages`: the preferences, their defaults and their normalization
  (idempotent; normalized settings, once read back through `Settings::from_stored`, are
  unchanged; writing and parsing the JSON file is done by `app/` and is not verified).
- `history`: history entries, where their recordings are stored and found, newest-first
  ordering (an appended entry comes before every entry made at its time or before).
- `recorder`: the recording state machine, the hotkey's effect in each state, and
  `dictation_step`, which drives one dictation from the saved take to the history entry (a
  silent take is neither transcribed nor kept).
- `hotkey`: hotkey parsing, modifier masks and the steps that replace a hotkey.
- `transcribe_local`, `transcribe_groq`: the whisper.cpp arguments, the Groq requests and the
  reading of their answers.
- `login`: the launch agent that starts the app at login, and XML escaping that decodes back.
- `audio`, `overlay`: device choice and the overlay's window sizes.
- `text`, `paths`, `decimal`, `json`, `clock`: text, path and number helpers, and the calls into
  `std` and `serde_json` that the library trusts.

`app/` is the desktop program around it: windows, audio capture, HTTP, files and the paste.
