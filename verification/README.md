# kociemba

Cube representations, coordinates and move arithmetic for a two-phase Rubik's cube
solver, written in Verus: the functions in `src/` carry contracts that Verus proves, except
for a few trusted wrappers: around the random number generators of `rand` and around
std's slice swap.

## Layout

- `src/permutation_math/`: permutations of `0..N` (composition, inverse, parity), Lehmer
  ranks, combination ranks of edge groupings.
- `src/repr_cubie.rs`: the cube as corner and edge permutations with twists and flips;
  composition, inverse, face turns, symmetry conjugation. `src/validity.rs` proves that
  valid cubes stay valid under composition and inversion, `src/move_powers.rs` that four
  quarter turns of a face undo themselves, `src/conjugation.rs` that conjugation respects
  composition, and `src/transform_laws.rs` that conjugating by two symmetries in turn is
  conjugating by the composite that the symmetry table gives, and by a symmetry's inverse
  undoes it.
- `src/coords.rs`, `src/repr_coord.rs`, `src/cube_ops/`: the raw coordinates of both
  phases and the cubes they name, with round-trip contracts.
- `src/cubie_repr.rs`, `src/cubie_moves.rs`, `src/sym_coord.rs`: the cube as 40 bytes and
  its face turns, gathers, mirror and the table of whole-cube symmetry transforms;
  `src/three_solver.rs`: the same cube with its coordinates and face turns.
- `src/random_cube.rs`: sampling of random cubes; the random draws come from `rand` and
  `rand_chacha` through small trusted wrappers.
- `src/facelets.rs`: the sticker colours of a cube.
- `src/tables/`: the logic of the pruning and move tables: breadth-first level steps over a
  working table (one byte per state for phase 2; 2-bit entries holding the distance modulo 3
  for phase 1), the packing of distances into 4-bit entries, the index of a phase 2 table
  entry, the layout of the restricted edge move table, and the numbering of distinct
  move-table columns.
- `app/`: printing a cube in colour, and drawing random cubes until an attempt succeeds.
- `tests/`: executable tests of the library.
