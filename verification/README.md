# block_world

The data model and rules of a voxel world, verified with Verus.

`src/` is the library:

- `block`: block locations and their arithmetic, block types, texture tiles
  and the block registry.
- `world::chunk`: render chunks (16 x 16 x 16 blocks), chunk columns (six
  render chunks), terrain filling per biome, face culling into meshes, and
  the chunk handler, which decides what to generate, mesh, draw and unload
  and answers block queries in world coordinates.
- `world::world`: the world around the chunk handler and what saving it
  writes.
- `gui::inventory`: inventory slots and the hot bar's selection rules.

`app/` is a program around the library: it computes terrain heights and
biomes from noise, runs generation and meshing on worker threads, reads and
writes render chunk files, and drives the chunk handler without a window.
