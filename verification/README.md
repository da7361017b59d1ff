# torpedo_duel

A two-player torpedo duel drawn with WebGL in the browser. The library in
`src/` holds the game's decisions, each proved with Verus:

- `controls`: which key gives which command to which player;
- `torpedo`: the safety fuse and the torpedoes kept from frame to frame;
- `collision`: the collision grid (a `HashMap` keyed by both cell coordinates
  packed into one `u64`) and the proof that a vehicle is hit exactly when an
  armed torpedo lies within reach of it, and of how many cells the vehicle
  squares share;
- `explosion`: the ping-pong of the explosion's particle buffers;
- `frame`: the frame clock, the kill records and what is drawn per vehicle;
- `layout`: the uniform blocks and per-vertex normals handed to the shaders;
- `varyings`: the transform feedback varyings, read with `serde_json`.

`app/` is the browser program around it: WebGL calls, keyboard listeners,
the animation loop and the floating-point motion of vehicles and torpedoes.
It reads the GLSL sources from script elements of the page, by file name.
