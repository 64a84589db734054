# wgpu_app

A small wgpu/winit viewer with two windows, each cleared with a colour that
follows the cursor; its mesh (a pentagon by default) is read from an
s-expression file and can be reloaded with R, together with the shader.

- `src/` is the verified library (Verus): the binary model format and its
  round-trip laws (`codec`), the mesh and the vertex layout (`model`), the
  window registry (`windows`), the surface size state and format choice
  (`surface`), the window event decision table (`events`), the HSV sector
  table (`color`) and the keep-old-on-failure reload step (`reload`).
- `app/` is the window system, GPU, file and s-expression side: it turns
  winit events and wgpu capabilities into the library's plain values and
  carries out the actions the library decides.
- `tests/` runs the library on concrete values.
