# sharp

The logic of Sharp, a voice-driven desktop assistant: press a hotkey, speak,
and an agent with terminal, web and GUI tools acts and answers aloud.

- `src/` is the verified library (Verus). It holds the text handling
  (sentence splitting for speech, HTML to plain text, page excerpts), the
  routing of the agent's tool calls (their JSON arguments read through
  serde_json) and the wording of their results, the
  key-combination and mouse vocabulary, the decoder of streamed replies, the
  agent's turn-by-turn decisions and message history, the live transcript
  buffer and the WAV files (written by hound) sent for transcription, and the
  store of past conversations.
- `app/` is the desktop program around it: Tauri commands and windows,
  microphone capture, speech output, screen capture, HTTP calls, child
  processes, simulated input and files on disk.
- `tests/` runs the library on concrete inputs.
