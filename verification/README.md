# slam_rover

The decision logic of a Godot viewer and driver for a rover mapped by a SLAM
server, verified with Verus.

- `src/tracker.rs`: the tracker states and how messages announce them.
- `src/slam_map.rs`: the map of landmarks and keyframes that SLAM updates build,
  what is drawn of it, and its laws.
- `src/navigator.rs`: the navigator's state machine (inputs, watchdog, drive
  command, self-driving move) and its laws.
- `src/link.rs`: the requests to the SLAM server and base64 payload decoding.
- `src/robot.rs`: the rover's body.
- `app/`: the Godot node, the network and rendering code, and the floating-point
  geometry, around the library.
