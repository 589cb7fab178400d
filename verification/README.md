# tsubame

The decision logic of a Windows streaming and recording tool, written in
Verus and proved against its contracts.

- `src/` is the verified library:
  - `session` — stream presets, edit markers, the editor manifest, worker channels;
  - `recording` — H.264 encoder choice from probe results, frame timing,
    recording settings and the FFmpeg arguments of the final mux;
  - `paths` — the files of a recording and safe track names;
  - `capture` — preview pacing, frame buffers, the window list;
  - `audio` — application audio sources, device selection and status;
  - `channels` — the mixer's channel list;
  - `streaming` — streaming targets, publish URLs, the FFmpeg arguments of a
    stream and the summary of its log;
  - `settings`, `ui`, `view_model`, `addon`, `compose` — saved setting names,
    front-end pacing and library listings, the main view model, the add-on
    registry, and pixel blending;
  - `text`, `order` — the text functions and the stable sort the rest uses.
- `tests/` exercises the library with the real outside crates linked.
- `app/` is the program around it: finding and running FFmpeg, the settings
  file, floating-point mixing and overlay geometry, and the streaming process.
