# engine

The verified core of a small OpenGL game engine, written in Verus.

- `src/` is the library, every function of it verified: the entity and
  component bookkeeping of the ECS world (`ecs::world`), the access rules of
  queries (`ecs::query`), collision pair detection (`collision`), the index
  buffers built from OBJ faces (`render::asset_storage::vertex`) and the small
  render-side stores (shader programs, handles, the command queue).
- `tests/` runs the library on concrete values.
- `app/` is the program around it: the window and OpenGL context, the
  type-erased component storages, and everything that computes in floating
  point (transforms, physics, cameras, collider geometry).

Laws of the library stand in `src/` as public proof functions named `law_*`.
