use vstd::prelude::*;

verus! {

/// The rover's body: where its camera sits on it.
pub struct RobotBody {}

impl RobotBody {
    /// The height of the camera above the robot's base, in millimetres.
    pub fn get_cam_height() -> (h: u32)
        ensures
            h == 105,
    {
        105
    }
}

} // verus!
