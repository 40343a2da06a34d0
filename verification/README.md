# walldeck

A wallpaper picker for Wayland. It opens as a layer-shell overlay, shows your
wallpapers as a scrollable ribbon of thumbnails with a search bar below, and
hands the one you choose to an `awww`-compatible backend.

The logic is a library written in Verus: every function states what it returns
or changes, and the verifier proves it. The program around it does the input
and output.

## Layout

- `src/` is the library.
  - `text`, `numerals`, `literal`, `order`, `paths`: strings, numbers, sorting
    and path expansion.
  - `value`, `theme`, `config`: the configuration file.
  - `images`, `thumbnails`, `blur`, `pixels`: wallpapers, their variants, the
    caches, and cover-cropping decoded pictures.
  - `shape`, `canvas`, `font`, `render`: rounded rectangles, compositing,
    lettering, and the whole picture.
  - `picker`: the picker's state under input, frames and animation.
  - `wallpaper`, `apply`, `feedback`, `startup`: the backend's command line, the
    steps of applying a choice, notifications, and what happens before the
    picker opens.
- `tests/` runs the library.
- `app/` is the program: Wayland, files, processes, and floating point.

## What is proved

Contracts are stated over mathematical models: text is a sequence of
characters, a canvas a sequence of bytes, the picker a record of its state.
Each module ends with the laws that relate its functions, as proof functions:
for example that a mistaken line in the configuration only warns, that whatever
is picked matches the search, that a cell is hit exactly where it is drawn, that
at most one frame is in flight, or that an optional second target is never
fatal.

Real-valued settings are kept as the literals they were written as; positions
that ease toward a target enter the picker only as far as they are compared with
whole numbers.

What is not proved is marked `external_body` or `assume_specification`: two
functions of the standard library, on appending to a string and on lower case,
and the functions of the `image` crate that measure, crop and convert a decoded
picture.

## Requirements

A compositor with `wlr-layer-shell`, a wallpaper daemon with a
`<command> img [flags] <path>` interface, and `libxkbcommon`. Optional:
`notify-send`, and an audio player for the completion sound.
