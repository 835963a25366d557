# tauri_llm

The verified core of a desktop application that captions speech, translates captions, keeps
recordings and talks to language models.

`src/` is the library. Everything it decides or computes is stated in contracts and proved with
Verus: cleaning and punctuating transcripts, the session of a local recogniser, telling speakers
apart, records of recordings and their exports, requests to model providers, downloads and
installations step by step, windows and their pictures, captured sound, settings and translations.
Samples and embeddings are moved and never looked at, so that no floating point is needed; numbers
that are compared come in as bit patterns.

The library calls chrono, serde_json, genai, image and base64 through small functions whose
contracts are trusted; each says above it what it claims of the function that it calls.

`tests/` holds the tests of the library. `app/` is the application around it: files, network,
sound, windows, floating-point arithmetic and the desktop shell. The shell and the native speech
engines are bound in builds made with the shell's build script.
