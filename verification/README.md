# LOL hextech assistant

A desktop helper for the LOL hextech mode: it reads the local Live Client
Data API, a calibrated screenshot of the augment panel and ApexLOL pages, and
shows an information card above each of the three augment choices. It never
plays for the user.

- `src/` is the decision library, verified with Verus: the augment-selection
  state machine, Live Client payload parsing, OCR name matching, overlay
  geometry, the runtime orchestration rules, ApexLOL page reading and cache
  rules, frame statistics, resource-path and package checks. The public
  functions state their results in `ensures`, except where the answer comes
  from the disk, the clock or the network, where they state what holds of
  every answer; the `lemma_*` proof functions state the properties that span
  several calls.
- `tests/` runs the library on concrete values.
- `app/` is the Tauri desktop shell around it: windows and tray, file and
  network I/O, screen capture, the ONNX Runtime recognizer, and the
  floating-point image and calibration measurements.
