# rust_engine

Resource bookkeeping and draw planning for a Vulkan rendering engine, verified with Verus.

- `src/` is the verified library: generational object and resource pools, the dynamic
  object manager and spawner, per-mesh pool management, render queues with stable depth
  sorting, material batching, draw planning for instanced dynamic objects, frame cycling,
  device and memory-type selection, descriptor layouts and mip chains.  Every public
  function carries a contract; the laws that span several calls are public proof
  functions named `law_*`.
- `tests/` exercises the library on concrete values.
- `app/` holds what the verifier does not see: the Vulkan calls made through `ash`,
  floating-point geometry and timing, and error types with `thiserror` derives that
  convert to and from the library's own.
