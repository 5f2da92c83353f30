# gouda

The verified core of the Gouda game engine and its sample games, written in
Verus. Every function under `src/` carries a contract that Verus proves, with
two exceptions in `perlin`, which call the `rand` crate: `os_seeded_rng`
claims nothing, and `shuffle_with` has a contract that is assumed (the
shuffled values keep their counts), not proved.

Modules:

- `genindex` — generational index allocator and the array addressed by its
  indices; laws on liveness, retirement of freed indices and reads/writes.
- `images` — 8-bit RGBA images, big-endian byte assembly (`utils`), BMP
  decoding (`bmp`) and sprite sheets (`spritesheet`).
- `buffers`, `buffers2`, `shader_lib`, `shaders`, `font_library`, `names` —
  vertex layouts with their offsets and strides, the built-in shader layouts,
  and name-keyed libraries of shaders and fonts.
- `input` — button state updates, the macOS key mapping and the Win32 mouse
  messages.
- `engine` — the main loop's decisions: frame pacing, window events and the
  quit shortcut.
- `mouse_capture` — which area captures the mouse, and the state changes of
  a capture.
- `model` — triangle fans, grouping of faces by material and submesh layout
  of OBJ meshes.
- `perlin` — permutation table and lattice-corner hashing of Perlin noise.
- `flappy`, `sandbox` — rules of the sample games: the pipe course and the
  colliding pairs, supplies, monsters, the days and their waves, and the
  wave spawner.

`app/` is a small command-line front end: it reads a BMP file from disk and
decodes it with the library, or prints Perlin noise (whose floating-point
blending stays there).
