# photo_culler

A desktop tool for culling event photo shoots: rate (1–5 stars) or reject
JPEGs, filter them, read a capture-time coverage timeline, and export a
keeper list with rating sidecars.

- `src/` is the library, verified with Verus: the rating model and filter,
  the name-keyed ratings map, the sidecar and resume-config values, the EXIF
  block read from a file's bytes (capture time, orientation, embedded
  thumbnail) and the chronological sort, file-name parts, the session
  (navigation, time-bin jumps, key handling, the loupe window, the save
  debounce, the decodes in flight), the coverage timeline, the keeper export plan, and the
  properties that tie them together (`src/laws.rs`).
- `tests/` runs the library on concrete shoots.
- `app/` is the egui program around it: windows and drawing, folder listing and
  file reading, JPEG decoding, the clipboard, and JSON on disk.
