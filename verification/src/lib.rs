//! Decision logic of a SLAM-driven rover viewer: the tracker states reported by
//! the SLAM server, the map of landmarks and keyframes built from its updates,
//! the navigator's drive decisions, the robot's body, and the requests and
//! payload decoding of the link to the SLAM server.

pub mod link;
pub mod navigator;
pub mod robot;
pub mod slam_map;
pub mod tracker;
