# vkawaii

The verified core of the VKawaii VTuber engine, written in Verus.

- `src/` is the library, verified by Verus: the event bus (its two ends stay
  connected; what arrives depends on other threads and is not stated), the
  node-graph action executor and graph editing, the validation and binding
  reflection of shaders built from SPIR-V (through naga), the DXBC entry
  point, reading `.vkw` packages (through zip), decoding VMC tracking
  datagrams (through rosc), and the decisions of the render and input loops
  (bone search by name, hull and collider rules, scene visibility, key
  toggles, camera drag modes, WebSocket frames), the mesh index buffers, the
  node-hierarchy walk and the pairing of spring-bone self-collision.
- `tests/` runs the library on concrete values.
- `app/` is the program around it: the window and GPU (blue_engine), the
  floating-point animation, skinning and spring-bone physics, the egui
  overlay, audio capture, global hotkeys, the UDP, WebSocket and Spout I/O.

Calls into outside crates go through small trusted wrappers whose contracts
are stated in their doc comments.
