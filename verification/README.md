# Inertia

A physics playground: a Gaussian wave packet evolved by the Schrödinger
equation on the GPU through a double slit, and an orbital simulation of
bodies that attract one another, drawn with glium and controlled through egui.

The crate is split in two.

`src/` is a library verified with Verus. It holds the parts of the program
that decide things on integers, characters and collections, each with a
contract:

- `layout`: reading the work group size out of a compute shader's source;
- `compute`: compute shaders, work group counts for a dispatch, the number of
  partial sums of the unitarity check, and the compute pipeline;
- `mesh_grid`: the triangle lists of the wave function's height mesh and of
  the barrier, and the vertex and triangle counts;
- `shaders`: the shader kinds and where their sources are found;
- `registry`: objects kept under names, looked up by the earliest name;
- `trail`: trails with a length limit, and orbit trails stored by name;
- `galaxy`: the bookkeeping of the orbital simulation and how visual
  commands change its trails and arrows;
- `widgets`: the control bar, the orbit trail window, the force manager's
  selection and the body colours;
- `text`: the two string operations the parsers rely on.

`app/` is the program around it: the window and GL context, shader
compilation, textures and compute dispatches, the floating-point physics,
the camera and the egui windows.

`tests/` exercises the library on concrete values.
