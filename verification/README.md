# fem_comp

A plane frame solver by the direct stiffness method.

- `src/` is the verified library. Its model (`vals`) is generic over the
  scalar type. The library lays out the beam element matrices (`layouts`),
  assembles the global stiffness matrix into triplets, applies the boundary
  conditions, builds the load vector and reads the element end displacements
  (`calcs`). It also decides which workbook sheet holds what (`ios`) and how
  the viewer draws the nodes (`view`). Each function has a contract over the
  positions and values it produces.
- `app/` is the program. It reads the workbook (calamine), does the `f32`
  arithmetic and the sparse Cholesky solution (nalgebra, nalgebra-sparse) and
  prints the results. Run without an argument, it opens the viewer (raylib,
  nfd).
- `tests/` runs the library on concrete frames.
