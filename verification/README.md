# worldraw

Renders a top-down map of a Minecraft (Java edition) world from its region
files: one PNG per chunk, or the whole world as a single image, with optional
downscaling, 5x / 15x supersampling, 45-degree sun shadows, ambient occlusion
on one-block steps, bloom around light sources, transparent water and a night
mode. Launched without arguments, the program serves a small web page where a
world (a folder or a `.zip`) can be uploaded, rendered and downloaded.

## Layout

- `src/` is the library, verified with Verus: block colors, the surface of a
  chunk, shadows, ambient occlusion and bloom, every renderer, region-file
  reading (through `mca`), the command-line and web-form rules, multipart
  parsing, routing and the response bodies. Each public function states in its
  contract what it returns, and the properties promised of the renderer as a
  whole (a pillar's shadow length, that shading never brightens, that a
  downscaled pixel shows the most common block, ...) are proof functions.
  Ambient occlusion and bloom are computed with exact integer fractions
  rather than in floating point; a single-precision computation of the same
  formulas can truncate a channel one unit lower in a few cases (see the
  doc comments of `bloom` and `apply_ao`). The night bloom reach of four
  blocks is this library's choice.
- `app/` is the program around it: argument and file handling, NBT decoding
  with `fastnbt`, PNG encoding with `image`, the progress bar, and the HTTP
  server (`tiny_http`, `zip`, threads).
- `tests/` runs the library on concrete worlds, images and requests.

Example:

```
worldraw path/to/world -s -r -hs -ao -t -b
```
