# omnirec

The decision-making core of a cross-platform screen recorder, written in
Verus and proved against its contracts: configuration, frame cropping and
pixel conversion, content detection, thumbnails, FFmpeg command lines and
frame pacing, the recording lifecycle, the window list, the transcription queue and transcript
text, picker and service messages, the approval token, and platform
decisions (desktop detection, monitors, audio sources, tray).

- `src/` — the verified library.
- `tests/` — executable tests of the library.
- `app/` — a small command-line shell that reads files, the environment and
  processes, and passes their values to the library.
