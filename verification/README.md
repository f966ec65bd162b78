# layanow

The verified core of `layanow`, a desktop applet that captures a question and
its candidate answers from the screen, asks a local Laya decision model which
answer is right, and shows the ranked answers.

- `src/` is the library, written in Verus: the capture session and whole-quiz
  parsing (`capture`), the model input layout (`render`), file-selection
  context (`files`), the control protocol and command line (`control`), the
  selection resolvers' rules (`resolvers`), settings without floating point
  (`settings`), the checkpoint's config budgets, special-token spellings and
  choice options (`model`), the worker's engine plan (`worker`), the overlay's
  capture/decision state machine (`overlay`), overlay host errors
  (`platform`), the first-generation types (`assist`), and bundle location,
  manifest listing and integrity checks (`bundle`). Character-level helpers live in `text`.
- `tests/` exercises the library from outside.
- `app/` is the binary: sockets, files, the network, the ONNX Runtime model,
  floating-point calibration and results, and the egui overlay drawing.
