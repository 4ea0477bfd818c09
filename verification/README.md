# icon_forge

The logic of a desktop tool that manages the icons of Tauri projects, verified with
Verus.

It scans a directory for Tauri projects, replaces a project's icons from one source
image, and builds, runs and cleans projects. Before icons are generated, the source
image is normalised to a fully opaque 1024 by 1024 canvas ("full-bleed"), so that the
plate macOS puts around legacy icons shows no ring of background; on macOS the rounded
plate and its shadow can also be baked into `icon.icns`.

## Layout

- `src/` — the verified library.
  - `raster`, `pixels`: RGBA images and their pixel-level analysis (bounding box of the
    visible pixels, opacity, dominant colour, cropping, flattening).
  - `image_ops`: resampling, compositing and decoding, done by the `image` crate behind
    trusted wrappers.
  - `full_bleed`: the full-bleed normalisation and its two branches, cover and plate.
  - `macos_look`: the macOS plate and shadow, and the images of an `.iconset`.
  - `json`, `paths`, `text`, `ordering`: JSON values, `Path`-style joins and extensions,
    string helpers, and a verified stable sort.
  - `shell`, `projects`, `workflow`, `replace`: the commands that drive the Tauri CLI and
    cargo, project discovery, build and run decisions, and icon replacement as a
    protocol between the library and its caller.
  - `laws`: properties that relate several operations.
- `tests/` — tests of the library on concrete values.
- `app/` — the commands themselves: file system, processes, settings and serde, around
  the library.
