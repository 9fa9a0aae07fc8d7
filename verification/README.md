# bevy_softbody2d

Soft-body meshes for Bevy: a `SoftBody2d` mesh is shrink-wrapped around a set of
node entities and follows their positions.

- `src/` is the verified core (Verus): instance counting for the compute pass,
  packing of node lookups into the node and instance buffers, vertex-buffer
  sizing, and the triangle-fan topology of the circle mesh, each with its
  contract and the laws that tie them together.
- `app/` holds the Bevy side: plugins, components, ECS hooks and systems, shader
  bindings, and the floating-point geometry (vertex positions, UVs, centroids).
- `tests/` runs the library on concrete values.
