# GameAssistant

The core of a desktop voice assistant for games: it listens for a wake word,
asks a language model, and keeps a long-term memory of what was said.

`src/` is a library that is verified with Verus. Every function there has a
contract, and the laws that span several functions are proved beside them
(`law_...`).

- `text`, `kana`, `ordering`, `json`, `paths`, `digest`, `clock`,
  `identifiers`: what everything else is built on.
- `wake_word`, `asr`: how a wake word is found in recognised speech, and what
  follows from it.
- `asr_worker`, `transcript`, `wav`, `audio`, `audio_input`: the speech worker,
  its messages, and sound.
- `ai_client`, `generation`: requests to language models, their keys, retries
  and answers.
- `lance_memory`, `memory_table`, `memory_summary`, `backfill`: the rows of the
  memory, their statuses and moves between tables.
- `backup_run`, `restore_run`: the steps by which a snapshot of the memory is
  made and put back.
- `summary_failure`, `grounding`, `local_summary`, `summary_server`,
  `summary_service`: summaries by a local model, and when they are refused.
- `bootstrap`, `setup_status`, `setup_tools`, `setup_run`, `runtime_init`,
  `startup`, `logger`: the first start, the state of the runtime, and the log.

`app/` is the program around it: files, processes, connections and sound.
It asks a program of the user's own what may be used of a text (the setting
`privacy_policy_program`); without one no text is summarised.
`tests/` holds the tests of the library.

Outside crates are called behind declarations that say what is relied upon:
`serde_json` (`json`), `sha2` (`digest`), `hound` (`wav`), `chrono` (`clock`) and
`uuid` (`identifiers`).
