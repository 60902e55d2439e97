# rust_qr

Building blocks of a QR code detector, written in Verus with their
contracts proved.

## Layout

- `src/models` — bit matrices, QR versions, error-correction levels and
  mask patterns, integer points.
- `src/utils` — grayscale conversion, Otsu and adaptive binarization with
  summed-area tables, fixed-point arithmetic and reusable buffers.
- `src/detector` — finder-pattern line checks, contour and proposal
  support, alignment-pattern positions, image pyramids, and the labelling
  of connected regions with a union-find forest.
- `src/pipeline` — alternative grayscale views for decode retries,
  proposal views, routing of decode attempts, the decode budget, exposure
  checks, the step functions that schedule a detection request, a pooled
  detection, the multi-binarization strategy pass and the decoding of ranked
  finder groups, and decoding of whole images and crops with the quirc
  locator and decoder.
- `src/input.rs`, `src/options.rs`, `src/cancellation.rs`, `src/api.rs` —
  validated image input, decoder options and presets, cancellation, and the
  reusable detector handle.
- `src/tools.rs`, `src/fingerprint.rs` — benchmark scoring, payload and label
  normalization, and FNV-1a fingerprints of benchmark files.
- `app/` — file, environment and image input, the row-parallel grayscale
  conversion, and the helpers that need floating point.
- `tests/` — tests of the library from the outside.

## What is not here

There is no end-to-end detection entry point (`try_detect`, `detect`,
`Detector::detect` or a pooled detector): those are assembled from a decoder
and a configuration module that this project does not have. What stands
here is the work around them: input validation, the schedule of a detection
request and its other passes (`pipeline::pass_schedule`, `pool_schedule`,
`strategy_schedule` and `ranked_decode_plan`, driven by the `run_*` loops
in `app/`), the binarizations and detectors, the decode budget, the
decoding of grayscale views and crops with quirc, and the decode chain of a request
(`app/decode_engine.rs`), which keeps only its floating-point corners and
scores out of the library.
