# elfentier_core

Core library of the elfentierFX procedural effects tool, written in Verus: every function
under `src/` carries a `requires`/`ensures` contract that Verus proves. `f32` values (sizes,
positions, densities) are carried as their IEEE-754 bit patterns; the library moves them
around and encodes them, and never computes with them.

## Library (`src/`)

| Module | Contents |
|--------|----------|
| `graph` | Node graph model (nodes, edges, parameters), views, the starter presets |
| `prompt` | Rule-based Japanese/English prompt interpreter, placement switching |
| `edits` | Graph edits and their left-to-right application |
| `plan` | Turning prompt intents into planned edits on a graph |
| `explain` | The lines of a graph's template summary |
| `cook` | City cook planning: which operation each node runs, on which earlier results |
| `agent` | Preset catalogue, parameter updates |
| `mesh`, `buffer`, `lib` | Mesh bookkeeping (boxes, quads, merging), mesh statistics |
| `collider` | Collider kinds, sphere and torus triangle layouts |
| `volume_texture` | `.evol` volume texture encoder and reader |
| `openvdb` | OpenVDB fog grid encoder (tree construction and serialization) |
| `export` | Binary glTF framing, density atlas and particle cache encoders, bundle names |
| `bundle` | Export bundle payload entries and manifest |
| `fog_grid` | Dense density grids rebuilt from a fog grid's active voxels |
| `preview` | Base64 preview frames, frame selection |
| `regions` | Bright-pixel classification, connected regions, bounding boxes of preview frames |
| `text`, `le_bytes`, `rng` | Character and byte helpers, little-endian codecs, integer hashes |

## Host program (`app/`)

The `vdb_convert` command line (`info`, `to-vdb`, `from-vdb`), file I/O around the
encoders (export bundles, `.vdb` parsing with `vdb_rs`), and the `f32` computations:
building geometry and instance placement run by the library's cook plan, the smoke and
liquid solvers, colliders, mesh signed distance fields, preview contrast metrics, the
`f32` additions that finish planned edits, and the decimals of summary lines.

## Tests (`tests/`)

Concrete scenarios for each module, run against the compiled library.
