# PickScribe

Linux dictation: record the microphone, transcribe locally with whisper.cpp,
clean the transcript with an OpenAI-compatible language model, and paste the
result into the focused window.

The decisions of the tool are a library verified with Verus; the programs
around it do the recording, the HTTP calls, the files and the processes.

## Layout

- `src/` — the verified library.
  - `text` — string helpers with specifications (trimming, words, lines,
    decimal numbers, the order of strings).
  - `audio`, `media` — WAV headers and samples, recordings that are still
    being written, and the duration of a converted file.
  - `segments`, `incremental` — the transcript of a recording as segments,
    and the state machine that cuts a growing recording into segments while
    it is recorded, with what the command-line worker reads from its files.
  - `cleanup`, `cleanup_cli` — the cleanup policy: which provider and
    endpoint, local-only mode, the prompts, when a cleaned segment is safe to
    use, and what a failure turns into.
  - `paste` — how the text is delivered (clipboard, paste shortcut, typing),
    as a step function the delivery loop runs.
  - `config`, `settings` — the configuration, the env file, and how a
    settings change takes effect, as a step function over the backend's
    replies.
  - `stt`, `transcript`, `recorder` — reading whisper.cpp's output, model
    choice, subtitles, and the recorder's command line.
  - `cli`, `lifecycle`, `desktop`, `file_job`, `doctor`, `platform`,
    `history`, `sounds` — the decisions of the command-line program and of
    the desktop app: starting a dictation, the stop → transcribe → clean →
    paste pipeline (which keeps the finished start of a recording whose
    incremental worker fell back and transcribes only the rest), file jobs,
    the doctor page.
  - `paths`, `cancel` — what `std::path::Path` reports, and a shared
    cancellation flag.
- `app/` — the `pickscribe-cleanup` program and the I/O around the library:
  HTTP, configuration files, the history database, WAV files, whisper.cpp,
  the recorder and the delivery helpers.
- `tests/` — tests of the library.
