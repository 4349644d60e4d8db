# twisty

Geometry and colouring rules of twisty puzzles drawn with bevy: a Rubik's
cube of any size, a mirror cube and a pyraminx, and the input decisions of
the camera that looks at them.

- `src/` is the verified library (Verus): which tiles of a cube are drawn
  and how they are painted, the vertex, normal, index and colour layout of
  a box mesh, the pieces of a mirror cube, the sides of the pyraminx bodies,
  texture rows, and the camera's mode switch, cursor and movement keys.
- `app/` is the bevy program: it scales the verified layouts by the
  floating-point sizes, builds the meshes, textures and materials, and runs
  the systems that read input and move the camera.
