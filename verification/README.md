# ralk

The verified core of a small Vulkan game engine, written in Verus.

`src/` is the library.  Verus proves the contract of every function in it
except two small wrappers around the standard library whose contracts are
taken on trust: `game::trim` (`str::trim`) and `hdr::is_utf8`
(`std::str::from_utf8`).  The modules:

- `render_graph` – per-frame render graph: layout tracking, barrier
  decisions, and the frame graph the renderer records.
- `upload` – texture mip chains, the upload command sequence and cubemap
  staging layout.
- `hdr`, `half` – Radiance `.hdr` decoding and half-float packing.
- `assets`, `listing` – texture conversion, model merging, the built-in
  cube, the saved-scene list.
- `device`, `profiler`, `resources` – GPU selection policy, timestamp query
  bookkeeping, resource handle tables.
- `audio` – playback slot pool and WAV framing.
- `scene`, `game`, `shader`, `scripting`, `config` – scene records, screen
  and input state machines, shader change detection, script bookkeeping.

`app/` is the program around it: file and GPU I/O (ash), glTF import,
floating-point synthesis and lighting precomputation, Lua scripting,
audio output, shader compilation, and a text console that drives the
menus and key handling from standard input.

`tests/` exercises the library on concrete values.
