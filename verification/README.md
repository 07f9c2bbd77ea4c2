# sdf_text_view

A signed-distance-field text renderer and its companion GPU demos, with the
integer logic verified by Verus.

- `src/` — the verified library:
  - `shader`: the table of shared GLSL functions and the `#include`
    expansion of shader sources, with its laws;
  - `sdf`: the uniform blocks, buffer sizes and dispatch plan of the GPU
    distance transform;
  - `sdf_view`: the frame logic of the text view (clear, build nodes,
    compute, draw three frames, go idle);
  - `brush`: the touch-state machine of a stroke, the replay schedule of
    recorded touches and the triangle indices of stroke meshes;
  - `fluid`: the cell classification of the Poiseuille channel and its
    read-back schedule;
  - `fs`: resource paths inside an app bundle;
  - `hud`: a frame timer;
  - `text`: character-level string helpers.
- `tests/` — tests of the library on concrete values.
- `app/` — the host side: the SDF generator command (`input.png
  output.png`), the wgpu compute node that runs the library's dispatch plan,
  shader loading, and the floating-point geometry of the demos.
