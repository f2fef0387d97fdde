# vasea

A small build-system and image-shading library, verified with Verus.

- `src/config.rs`: the build options (`BuildConfig`) that a build script is
  compiled with, given to the decisions as a value.
- `src/mcule.rs`: build units (`Mcule`) with their inputs and recipes; making
  output paths relative, substituting `$out`, recording command statuses,
  deciding from file ages whether a unit is up to date or must be rebuilt.
- `src/redoxri.rs`: the build-script driver (`Redoxri`): settings from the
  command word, the unit that rebuilds the script, and what to do about it.
- `src/rust_mcule.rs`: Rust crate units (`RustMcule`).
- `src/image.rs`: pixels, image buffers, running a per-pixel function over an
  image, and the binary PPM encoding.
- `src/karlloc.rs`: the size arithmetic of the page-mapping allocator.
- `src/text.rs`: string helpers.

`app/` holds what touches the operating system: the Mandelbrot program, file
times and command execution for build units, the `mmap` allocator, and the
floating-point shaders.
