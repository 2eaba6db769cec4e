# sherpa_onnx_openai_server

An OpenAI-compatible text-to-speech HTTP service backed by the Kokoro model of
`sherpa-onnx`, with its decisions written in Verus and proved against their contracts.

- `src/` — the verified library
  - `service.rs`: authorization, validation of speech requests, the model list
  - `audio.rs`: response formats, 16-bit PCM and WAV encoding, what each format needs
  - `config.rs`: configuration from environment variables and the model directory
  - `voices.rs`: the voice-name to speaker-id table
  - `error.rs`: errors in the OpenAI error shape
  - `text.rs`: trimming, comma-separated lists, number parsing, path joining
  - `tts.rs`: the silent stand-in synthesizer
- `app/` — the server around it: axum routes, environment and file-system probing,
  float-to-PCM quantization, `ffmpeg` transcoding and the sherpa-onnx synthesizer
- `tests/` — tests of the library

Speeds are handled by their `f32::to_bits` pattern, so that the range check stays in
integer arithmetic.
