# oxiphysics

A physics toolkit — rigid bodies, molecular dynamics, SPH, lattice
Boltzmann, soft bodies, mechanisms, meshes, visualisation and analysis —
whose combinatorial core is verified with Verus.

## Layout

- `src/` — the verified library. Real quantities are stored as IEEE-754 bit
  patterns (`u64`), so the library holds and moves them exactly without
  computing with them. What the library decides is stated in contracts and
  proved: storage and handles (`rigid`, `md`, `sph`, `io`, `analytics`,
  `multiphysics`, `viz`), index bookkeeping of meshes and their OBJ text
  (`geometry`, `obj`), spatial hashing (`spatial`), lattice-Boltzmann
  streaming (`lbm`), marching-squares contour rules (`fields`), kinematic
  chains and mobility formulas (`mechanism`). Public `law_*` proof functions
  state properties that span operations.
- `app/` — the floating-point side: dynamics, geometry, kernels, colours and
  serialisation, written against the library's types.
- `tests/` — executable tests of the library.
