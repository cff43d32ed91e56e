# totality

The core of a small game engine, written in Verus: every function under
`src/` carries a contract that Verus proves.

- `sync` — a triple buffer for handing scene states from a simulation
  thread to a render thread. Each of its operations is modelled as a whole
  step on the buffer (the program shares it behind a lock). Three variants
  of its index arithmetic are kept; `tb_fna` is the one the buffer uses.
  Proved: the indices stay well formed under every interleaving of the
  reader's and the editor's steps, the reader's and the editor's copies
  never alias, a locked reader's copy never changes, and a grab after one
  or more commits reads the last value committed.
- `events` — input events (buttons, axes, positions), the store of the
  latest value per category, and the registry of callbacks per category.
- `gui` — colours (including hexadecimal colour codes), layout dimensions
  and component data.
- `render` — choosing the device, queue family, memory types and swapchain
  settings to render with; where meshes live in the shared vertex and index
  buffers and the draw calls that use them; how images are padded for
  upload; the demo's input handling and the per-frame render request.
- `shatter`, `model`, `io` — sorted triangles, mesh identities and window
  specifications.

`app/` is the program around the library: threads, the simulation loop,
callbacks that hold closures, the window and event loop (winit), asking the
Vulkan driver for its devices (vulkano), and everything that computes on
floating point (cameras, transforms, colour mixing). `tests/` exercises the library on
concrete values.
