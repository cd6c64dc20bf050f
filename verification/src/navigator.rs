use vstd::prelude::*;
use crate::tracker::TrackerState;

verus! {

/// How long, in nanoseconds, a teleoperation speed or a camera pose stays
/// valid after it arrived: 600 ms.
pub const INPUT_LIFETIME_NANOS: u64 = 600_000_000u64;

/// Whether an input stamped at `stamp` is stale at time `now` (both in
/// nanoseconds on the navigator's clock): its lifetime ended before `now`.
pub open spec fn expired(stamp: u64, now: u64) -> bool {
    stamp + INPUT_LIFETIME_NANOS < now
}

/// What the navigator tells the wheels to do at one tick.
#[derive(Debug, Clone, Copy, PartialEq, Eq)]
pub enum Command<Pose, Speed, Scale> {
    /// Both wheels stand still.
    Stop,
    /// Drive at the speed that the operator gave.
    Teleop(Speed),
    /// Drive on the robot's own toward the target, from the camera pose that
    /// the SLAM server reported, measured with its scale.
    Navigate { cam_pose: Pose, target_pose: Pose, slam_scale: Scale },
}

/// The move that self-driving makes toward the target.
#[derive(Debug, Clone, Copy, PartialEq, Eq, Structural)]
pub enum Motion {
    /// The target is within reach: stand still.
    Halt,
    /// The robot heads toward the target: both wheels forward.
    Forward,
    /// The heading error is positive: left wheel forward, right wheel back.
    TurnPositive,
    /// The heading error is negative: left wheel back, right wheel forward.
    TurnNegative,
}

/// The move for a target at a given distance and heading error: halt within
/// the distance tolerance, else go forward when the heading error is small,
/// else turn by the sign of the heading error.
pub open spec fn motion_for(within_tolerance: bool, heading_aligned: bool, error_positive: bool) -> Motion {
    if within_tolerance {
        Motion::Halt
    } else if heading_aligned {
        Motion::Forward
    } else if error_positive {
        Motion::TurnPositive
    } else {
        Motion::TurnNegative
    }
}

/// The direction of each wheel, left then right, for a move: 1 forward,
/// -1 back, 0 still.
pub open spec fn signs_of(motion: Motion) -> (i8, i8) {
    match motion {
        Motion::Halt => (0i8, 0i8),
        Motion::Forward => (1i8, 1i8),
        Motion::TurnPositive => (1i8, -1i8),
        Motion::TurnNegative => (-1i8, 1i8),
    }
}

/// Chooses the self-driving move. `within_tolerance` says that the target is
/// nearer than the distance tolerance, `heading_aligned` that the heading error
/// is smaller than the alignment tolerance, `error_positive` that it is above 0.
pub fn steer(within_tolerance: bool, heading_aligned: bool, error_positive: bool) -> (m: Motion)
    ensures
        m == motion_for(within_tolerance, heading_aligned, error_positive),
{
    if within_tolerance {
        Motion::Halt
    } else if heading_aligned {
        Motion::Forward
    } else if error_positive {
        Motion::TurnPositive
    } else {
        Motion::TurnNegative
    }
}

impl Motion {
    /// The direction of each wheel, left then right.
    pub fn wheel_signs(&self) -> (r: (i8, i8))
        ensures
            r == signs_of(*self),
    {
        match self {
            Motion::Halt => (0, 0),
            Motion::Forward => (1, 1),
            Motion::TurnPositive => (1, -1),
            Motion::TurnNegative => (-1, 1),
        }
    }

    /// Whether the move turns the robot on the spot (and so runs at the
    /// turning speed rather than the driving speed).
    pub fn is_turn(&self) -> (r: bool)
        ensures
            r == (*self == Motion::TurnPositive || *self == Motion::TurnNegative),
    {
        match self {
            Motion::TurnPositive => true,
            Motion::TurnNegative => true,
            _ => false,
        }
    }
}

/// What the navigator knows: the last teleoperation speed and camera pose with
/// the time each arrived, the target, whether self-driving is on, the tracker
/// state and the SLAM scale. Times are nanoseconds on the navigator's clock.
pub struct NavState<Pose, Speed, Scale> {
    pub teleop_speed: Speed,
    pub teleop_stamp: u64,
    pub cam_pose: Pose,
    pub cam_stamp: u64,
    pub target_pose: Option<Pose>,
    pub self_drive_enabled: bool,
    pub tracker_state: TrackerState,
    pub slam_scale: Scale,
}

/// An input that reaches the navigator.
pub enum NavEvent<Pose, Speed, Scale> {
    CamPose(Pose),
    TargetPose(Pose),
    TeleopSpeed(Speed),
    SelfDriveEnabled(bool),
    Tracker(TrackerState),
    SlamScale(Scale),
    /// The clock ticked: time to decide the wheels' command.
    Tick,
}

impl<Pose: Copy, Speed: Copy, Scale: Copy> NavState<Pose, Speed, Scale> {
    /// The command at time `now`. With self-driving off, the operator's speed
    /// while it is fresh, else stop. With self-driving on, stop when the camera
    /// pose is stale or the tracker is not tracking, else navigate toward the
    /// target if there is one, else stop.
    pub open spec fn command_at(self, now: u64) -> Command<Pose, Speed, Scale> {
        if !self.self_drive_enabled {
            if expired(self.teleop_stamp, now) {
                Command::Stop
            } else {
                Command::Teleop(self.teleop_speed)
            }
        } else if expired(self.cam_stamp, now) || self.tracker_state != TrackerState::Tracking {
            Command::Stop
        } else {
            match self.target_pose {
                Some(target) => Command::Navigate {
                    cam_pose: self.cam_pose,
                    target_pose: target,
                    slam_scale: self.slam_scale,
                },
                None => Command::Stop,
            }
        }
    }

    /// The navigator after an input arrives at time `now`: a camera pose or a
    /// teleoperation speed is recorded with its time, the other inputs are
    /// recorded as they are, and a tick changes nothing.
    pub open spec fn after_event(self, event: NavEvent<Pose, Speed, Scale>, now: u64) -> Self {
        match event {
            NavEvent::CamPose(p) => NavState { cam_pose: p, cam_stamp: now, ..self },
            NavEvent::TargetPose(p) => NavState { target_pose: Some(p), ..self },
            NavEvent::TeleopSpeed(v) => NavState { teleop_speed: v, teleop_stamp: now, ..self },
            NavEvent::SelfDriveEnabled(b) => NavState { self_drive_enabled: b, ..self },
            NavEvent::Tracker(t) => NavState { tracker_state: t, ..self },
            NavEvent::SlamScale(k) => NavState { slam_scale: k, ..self },
            NavEvent::Tick => self,
        }
    }

    /// The navigator as it starts at time `now`: the given idle speed and
    /// origin pose, both stamped `now`, no target, self-driving off, the
    /// tracker not initialized, and the given unit scale.
    pub fn new(now: u64, idle_speed: Speed, origin: Pose, unit_scale: Scale) -> (s: Self)
        ensures
            s.teleop_speed == idle_speed,
            s.teleop_stamp == now,
            s.cam_pose == origin,
            s.cam_stamp == now,
            s.target_pose is None,
            !s.self_drive_enabled,
            s.tracker_state == TrackerState::NotInitialized,
            s.slam_scale == unit_scale,
    {
        NavState {
            teleop_speed: idle_speed,
            teleop_stamp: now,
            cam_pose: origin,
            cam_stamp: now,
            target_pose: None,
            self_drive_enabled: false,
            tracker_state: TrackerState::NotInitialized,
            slam_scale: unit_scale,
        }
    }

    /// Records the operator's speed, stamped `now`.
    pub fn set_teleop_speed(&mut self, speed: Speed, now: u64)
        ensures
            *final(self) == (NavState { teleop_speed: speed, teleop_stamp: now, ..*old(self) }),
    {
        self.teleop_speed = speed;
        self.teleop_stamp = now;
    }

    /// Records the camera pose, stamped `now`.
    pub fn set_cam_pose(&mut self, cam_pose: Pose, now: u64)
        ensures
            *final(self) == (NavState { cam_pose: cam_pose, cam_stamp: now, ..*old(self) }),
    {
        self.cam_pose = cam_pose;
        self.cam_stamp = now;
    }

    /// Records the target.
    pub fn set_target_pose(&mut self, target_pose: Pose)
        ensures
            *final(self) == (NavState { target_pose: Some(target_pose), ..*old(self) }),
    {
        self.target_pose = Some(target_pose);
    }

    /// Turns self-driving on or off.
    pub fn set_self_drive_enabled(&mut self, enable: bool)
        ensures
            *final(self) == (NavState { self_drive_enabled: enable, ..*old(self) }),
    {
        self.self_drive_enabled = enable;
    }

    /// Records the tracker state.
    pub fn set_tracker_state(&mut self, tracker_state: TrackerState)
        ensures
            *final(self) == (NavState { tracker_state: tracker_state, ..*old(self) }),
    {
        self.tracker_state = tracker_state;
    }

    /// Records the SLAM scale.
    pub fn set_slam_scale(&mut self, slam_scale: Scale)
        ensures
            *final(self) == (NavState { slam_scale: slam_scale, ..*old(self) }),
    {
        self.slam_scale = slam_scale;
    }

    /// Whether an input stamped `stamp` is stale at `now`.
    pub fn is_expired(stamp: u64, now: u64) -> (r: bool)
        ensures
            r == expired(stamp, now),
    {
        now > stamp && now - stamp > INPUT_LIFETIME_NANOS
    }

    /// Takes one input at time `now`: records it, and on a tick answers with
    /// the command for the wheels.
    pub fn handle(&mut self, event: NavEvent<Pose, Speed, Scale>, now: u64) -> (c: Option<Command<Pose, Speed, Scale>>)
        ensures
            *final(self) == old(self).after_event(event, now),
            c == (if event is Tick { Some(old(self).command_at(now)) } else { None }),
    {
        match event {
            NavEvent::CamPose(p) => {
                self.set_cam_pose(p, now);
                None
            },
            NavEvent::TargetPose(p) => {
                self.set_target_pose(p);
                None
            },
            NavEvent::TeleopSpeed(v) => {
                self.set_teleop_speed(v, now);
                None
            },
            NavEvent::SelfDriveEnabled(b) => {
                self.set_self_drive_enabled(b);
                None
            },
            NavEvent::Tracker(t) => {
                self.set_tracker_state(t);
                None
            },
            NavEvent::SlamScale(k) => {
                self.set_slam_scale(k);
                None
            },
            NavEvent::Tick => Some(self.step(now)),
        }
    }

    /// The command for the wheels at time `now`.
    pub fn step(&self, now: u64) -> (c: Command<Pose, Speed, Scale>)
        ensures
            c == self.command_at(now),
    {
        if !self.self_drive_enabled {
            if Self::is_expired(self.teleop_stamp, now) {
                Command::Stop
            } else {
                Command::Teleop(self.teleop_speed)
            }
        } else if Self::is_expired(self.cam_stamp, now) || !self.tracker_state.is_tracking() {
            Command::Stop
        } else {
            match self.target_pose {
                Some(target) => Command::Navigate {
                    cam_pose: self.cam_pose,
                    target_pose: target,
                    slam_scale: self.slam_scale,
                },
                None => Command::Stop,
            }
        }
    }
}

/// The wheels move only on fresh input: the operator's speed is obeyed only
/// with self-driving off and while it is fresh, and the robot navigates only
/// with self-driving on, a fresh camera pose, a tracking tracker and a target.
pub proof fn lemma_moves_only_on_fresh_input<Pose: Copy, Speed: Copy, Scale: Copy>(
    s: NavState<Pose, Speed, Scale>,
    now: u64,
)
    ensures
        s.command_at(now) is Teleop ==> !s.self_drive_enabled && !expired(s.teleop_stamp, now),
        s.command_at(now) is Navigate ==> {
            &&& s.self_drive_enabled
            &&& !expired(s.cam_stamp, now)
            &&& s.tracker_state == TrackerState::Tracking
            &&& s.target_pose is Some
        },
{
}

/// With self-driving on, a fresh camera pose, a tracking tracker and a target,
/// the robot navigates toward that target from that pose with that scale,
/// whatever the operator's speed and its time: self-driving ignores teleop.
pub proof fn lemma_self_drive_navigates<Pose: Copy, Speed: Copy, Scale: Copy>(
    s: NavState<Pose, Speed, Scale>,
    target: Pose,
    now: u64,
    other_speed: Speed,
    other_stamp: u64,
)
    requires
        s.self_drive_enabled,
        s.cam_stamp + INPUT_LIFETIME_NANOS >= now,
        s.tracker_state == TrackerState::Tracking,
        s.target_pose == Some(target),
    ensures
        s.command_at(now) == (Command::<Pose, Speed, Scale>::Navigate {
            cam_pose: s.cam_pose,
            target_pose: target,
            slam_scale: s.slam_scale,
        }),
        (NavState { teleop_speed: other_speed, teleop_stamp: other_stamp, ..s }).command_at(now)
            == s.command_at(now),
{
}

/// With self-driving on, the command never depends on the operator's speed or
/// its time: two navigators that agree on every other input command alike.
pub proof fn lemma_self_drive_ignores_teleop<Pose: Copy, Speed: Copy, Scale: Copy>(
    s: NavState<Pose, Speed, Scale>,
    t: NavState<Pose, Speed, Scale>,
    now: u64,
)
    requires
        s.self_drive_enabled,
        t.self_drive_enabled,
        s.cam_pose == t.cam_pose,
        s.cam_stamp == t.cam_stamp,
        s.target_pose == t.target_pose,
        s.tracker_state == t.tracker_state,
        s.slam_scale == t.slam_scale,
    ensures
        s.command_at(now) == t.command_at(now),
{
}

/// With self-driving off, the command depends only on the operator's speed and
/// its time: two navigators that agree on those command alike.
pub proof fn lemma_teleop_ignores_navigation<Pose: Copy, Speed: Copy, Scale: Copy>(
    s: NavState<Pose, Speed, Scale>,
    t: NavState<Pose, Speed, Scale>,
    now: u64,
)
    requires
        !s.self_drive_enabled,
        !t.self_drive_enabled,
        s.teleop_speed == t.teleop_speed,
        s.teleop_stamp == t.teleop_stamp,
    ensures
        s.command_at(now) == t.command_at(now),
{
}

/// An input is stale exactly when more than its lifetime (600 ms) has passed
/// since it arrived; an input from the future is never stale.
pub proof fn lemma_expiry(stamp: u64, now: u64)
    ensures
        expired(stamp, now) <==> now - stamp > 600_000_000,
        now <= stamp ==> !expired(stamp, now),
{
}

/// The self-driving move: halt within the distance tolerance whatever the
/// heading; beyond it, go forward whenever the heading is aligned, whatever the
/// sign of its error; turn only when the heading is not aligned, toward the
/// sign of the error (left wheel forward for a positive error, right wheel
/// forward for a negative one).
pub proof fn lemma_steer_rules(within_tolerance: bool, heading_aligned: bool, error_positive: bool)
    ensures
        within_tolerance ==> motion_for(within_tolerance, heading_aligned, error_positive)
            == Motion::Halt,
        !within_tolerance && heading_aligned ==> motion_for(
            within_tolerance,
            heading_aligned,
            error_positive,
        ) == Motion::Forward,
        !within_tolerance && heading_aligned ==> motion_for(within_tolerance, true, true)
            == motion_for(within_tolerance, true, false),
        (motion_for(within_tolerance, heading_aligned, error_positive) == Motion::TurnPositive
            || motion_for(within_tolerance, heading_aligned, error_positive) == Motion::TurnNegative)
            ==> !within_tolerance && !heading_aligned,
        !within_tolerance && !heading_aligned && error_positive ==> signs_of(
            motion_for(within_tolerance, heading_aligned, error_positive),
        ) == (1i8, -1i8),
        !within_tolerance && !heading_aligned && !error_positive ==> signs_of(
            motion_for(within_tolerance, heading_aligned, error_positive),
        ) == (-1i8, 1i8),
        !within_tolerance && heading_aligned ==> signs_of(
            motion_for(within_tolerance, heading_aligned, error_positive),
        ) == (1i8, 1i8),
        within_tolerance ==> signs_of(motion_for(within_tolerance, heading_aligned, error_positive))
            == (0i8, 0i8),
{
}

/// With self-driving off, an operator's speed that arrives at `stamp` is
/// obeyed at every later time up to its lifetime, and after that the wheels
/// stop, until another input arrives.
pub proof fn lemma_teleop_speed_lifetime<Pose: Copy, Speed: Copy, Scale: Copy>(
    s: NavState<Pose, Speed, Scale>,
    speed: Speed,
    stamp: u64,
    now: u64,
)
    requires
        !s.self_drive_enabled,
        stamp <= now,
    ensures
        s.after_event(NavEvent::TeleopSpeed(speed), stamp).command_at(now) == (if now
            <= stamp + INPUT_LIFETIME_NANOS {
            Command::<Pose, Speed, Scale>::Teleop(speed)
        } else {
            Command::<Pose, Speed, Scale>::Stop
        }),
{
}

/// While self-driving, a tracker that reports any state but `Tracking` stops
/// the wheels, whatever else the navigator knows.
pub proof fn lemma_lost_track_stops<Pose: Copy, Speed: Copy, Scale: Copy>(
    s: NavState<Pose, Speed, Scale>,
    state: TrackerState,
    now: u64,
)
    requires
        s.self_drive_enabled,
        state != TrackerState::Tracking,
    ensures
        s.after_event(NavEvent::Tracker(state), now).command_at(now) == Command::<
            Pose,
            Speed,
            Scale,
        >::Stop,
{
}

/// Turning self-driving off hands the wheels back to the operator: the command
/// is then the fresh teleoperation speed, or stop.
pub proof fn lemma_manual_control_restored<Pose: Copy, Speed: Copy, Scale: Copy>(
    s: NavState<Pose, Speed, Scale>,
    now: u64,
)
    ensures
        s.after_event(NavEvent::SelfDriveEnabled(false), now).command_at(now) == (if expired(
            s.teleop_stamp,
            now,
        ) {
            Command::<Pose, Speed, Scale>::Stop
        } else {
            Command::<Pose, Speed, Scale>::Teleop(s.teleop_speed)
        }),
{
}

} // verus!
