use slam_rover::navigator::{steer, Command, Motion, NavEvent, NavState, INPUT_LIFETIME_NANOS};
use slam_rover::tracker::TrackerState;

type Pose = (f64, f64, f64);
type Speed = (f64, f64);

const MS: u64 = 1_000_000;

fn fresh(now: u64) -> NavState<Pose, Speed, f64> {
    NavState::new(now, (0.0, 0.0), (0.0, 0.0, 0.0), 1.0)
}

#[test]
fn new_state_is_idle() {
    let s = fresh(5);
    assert_eq!(s.teleop_stamp, 5);
    assert_eq!(s.cam_stamp, 5);
    assert!(s.target_pose.is_none());
    assert!(!s.self_drive_enabled);
    assert_eq!(s.tracker_state, TrackerState::NotInitialized);
    assert_eq!(s.slam_scale, 1.0);
    assert_eq!(s.step(5), Command::Teleop((0.0, 0.0)));
}

#[test]
fn expiry_is_strictly_after_lifetime() {
    assert_eq!(INPUT_LIFETIME_NANOS, 600 * MS);
    assert!(!NavState::<Pose, Speed, f64>::is_expired(0, 600 * MS));
    assert!(NavState::<Pose, Speed, f64>::is_expired(0, 600 * MS + 1));
    assert!(!NavState::<Pose, Speed, f64>::is_expired(1000, 10));
    assert!(!NavState::<Pose, Speed, f64>::is_expired(u64::MAX, u64::MAX));
    assert!(!NavState::<Pose, Speed, f64>::is_expired(u64::MAX - 5, u64::MAX));
}

#[test]
fn teleop_speed_lasts_its_lifetime() {
    let mut s = fresh(0);
    s.set_teleop_speed((0.3, 0.4), 1000 * MS);
    assert_eq!(s.step(1000 * MS), Command::Teleop((0.3, 0.4)));
    assert_eq!(s.step(1600 * MS), Command::Teleop((0.3, 0.4)));
    assert_eq!(s.step(1600 * MS + 1), Command::Stop);
}

#[test]
fn self_drive_needs_tracking_fresh_pose_and_target() {
    let mut s = fresh(0);
    s.set_self_drive_enabled(true);
    // not tracking
    assert_eq!(s.step(MS), Command::Stop);
    s.set_tracker_state(TrackerState::Tracking);
    // no target
    assert_eq!(s.step(MS), Command::Stop);
    s.set_target_pose((1.0, 0.0, 2.0));
    s.set_slam_scale(0.5);
    s.set_cam_pose((0.5, 0.0, 0.5), 10 * MS);
    assert_eq!(
        s.step(20 * MS),
        Command::Navigate { cam_pose: (0.5, 0.0, 0.5), target_pose: (1.0, 0.0, 2.0), slam_scale: 0.5 }
    );
    // stale camera pose
    assert_eq!(s.step(700 * MS), Command::Stop);
    // lost tracker
    s.set_cam_pose((0.5, 0.0, 0.5), 700 * MS);
    s.set_tracker_state(TrackerState::Lost);
    assert_eq!(s.step(700 * MS), Command::Stop);
}

#[test]
fn self_drive_ignores_teleop() {
    let mut s = fresh(0);
    s.set_teleop_speed((0.3, 0.3), 0);
    s.set_self_drive_enabled(true);
    assert_eq!(s.step(1), Command::Stop);
    s.set_self_drive_enabled(false);
    assert_eq!(s.step(1), Command::Teleop((0.3, 0.3)));
}

#[test]
fn handle_records_inputs_and_answers_ticks() {
    let mut s = fresh(0);
    assert_eq!(s.handle(NavEvent::TeleopSpeed((0.1, 0.2)), 50 * MS), None);
    assert_eq!(s.teleop_stamp, 50 * MS);
    assert_eq!(s.handle(NavEvent::Tick, 60 * MS), Some(Command::Teleop((0.1, 0.2))));
    assert_eq!(s.handle(NavEvent::SelfDriveEnabled(true), 60 * MS), None);
    assert_eq!(s.handle(NavEvent::Tracker(TrackerState::Tracking), 60 * MS), None);
    assert_eq!(s.handle(NavEvent::TargetPose((3.0, 0.0, 4.0)), 60 * MS), None);
    assert_eq!(s.handle(NavEvent::CamPose((1.0, 0.0, 1.0)), 70 * MS), None);
    assert_eq!(s.cam_stamp, 70 * MS);
    assert_eq!(s.handle(NavEvent::SlamScale(2.0), 70 * MS), None);
    assert_eq!(
        s.handle(NavEvent::Tick, 80 * MS),
        Some(Command::Navigate { cam_pose: (1.0, 0.0, 1.0), target_pose: (3.0, 0.0, 4.0), slam_scale: 2.0 })
    );
    // a tick changes nothing
    assert_eq!(s.cam_stamp, 70 * MS);
    assert_eq!(s.teleop_stamp, 50 * MS);
}

#[test]
fn steer_decisions() {
    assert_eq!(steer(true, true, true), Motion::Halt);
    assert_eq!(steer(true, false, false), Motion::Halt);
    assert_eq!(steer(false, true, false), Motion::Forward);
    assert_eq!(steer(false, false, true), Motion::TurnPositive);
    assert_eq!(steer(false, false, false), Motion::TurnNegative);
}

#[test]
fn wheel_signs_and_turns() {
    assert_eq!(Motion::Halt.wheel_signs(), (0, 0));
    assert_eq!(Motion::Forward.wheel_signs(), (1, 1));
    assert_eq!(Motion::TurnPositive.wheel_signs(), (1, -1));
    assert_eq!(Motion::TurnNegative.wheel_signs(), (-1, 1));
    assert!(Motion::TurnPositive.is_turn());
    assert!(Motion::TurnNegative.is_turn());
    assert!(!Motion::Forward.is_turn());
    assert!(!Motion::Halt.is_turn());
}
