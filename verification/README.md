# ac_image_forensics

Forensic analyses of JPEG images (error level analysis, JPEG ghosts, noise, gradient,
texture, demosaicing and block artefacts), with a desktop viewer that shows an image
through one analysis at a time and exports an HTML report of all of them.

## Layout

- `src/` — the library, verified with Verus. Each analysis has a module with its
  parameters, its integer pixel computations and their contracts; `raster` holds the image
  types, `arith` the shared integer facts, `errormap` the error maps and rectangle sums,
  `report` the HTML text and file-name rules, and `laws` the properties that relate
  several results. `codec` is the trusted boundary: the calls into the JPEG encoders, the
  decoder, the median filter and the luminance conversion, each with the contract that
  the rest of the library relies on.
- `tests/` — tests of the library on concrete images.
- `app/` — the viewer (egui): file dialogs, the clipboard, plugin libraries, and the
  floating-point stages of the analyses (statistics, colour ramps, DCT, Gaussian blur),
  built on the library's integer results.
