use slam_rover::slam_map::{
    KeyframeUpdate, LandmarkEntry, LandmarkUpdate, MapUpdate, SlamMap, SlamMessage,
};
use slam_rover::tracker::TrackerState;

type Viewer = SlamMap<(f32, f32, f32), Vec<u32>>;

fn landmark(id: u32, n: i32, point: Option<(f32, f32, f32)>, above: bool) -> LandmarkUpdate<(f32, f32, f32)> {
    LandmarkUpdate { id, num_observations: n, point, above_ground: above }
}

fn message(tag: &str, text: &str) -> SlamMessage {
    SlamMessage { tag: tag.to_string(), text: text.to_string() }
}

#[test]
fn new_map_is_empty() {
    let m = Viewer::new();
    assert!(m.landmarks.is_empty());
    assert!(m.keyframes.is_empty());
    assert_eq!(m.marked_keyframe, None);
    assert_eq!(m.max_lm_obs, 1);
    assert_eq!(m.min_lm_obs, 0);
    assert_eq!(m.tracker_state, TrackerState::NotInitialized);
}

#[test]
fn landmark_insert_replace_remove() {
    let mut m = Viewer::new();
    m.apply_landmark(landmark(3, 2, Some((1.0, 2.0, 3.0)), true));
    assert_eq!(
        m.landmarks.get(&3),
        Some(&LandmarkEntry { point: (1.0, 2.0, 3.0), num_observations: 2, above_ground: true })
    );
    assert_eq!(m.max_lm_obs, 2);
    m.apply_landmark(landmark(3, 1, Some((4.0, 5.0, 6.0)), false));
    assert_eq!(
        m.landmarks.get(&3),
        Some(&LandmarkEntry { point: (4.0, 5.0, 6.0), num_observations: 1, above_ground: false })
    );
    assert_eq!(m.max_lm_obs, 2);
    m.apply_landmark(landmark(3, 9, None, true));
    assert_eq!(m.landmarks.get(&3), None);
    assert_eq!(m.max_lm_obs, 2);
    // removing an absent landmark changes nothing
    m.apply_landmark(landmark(8, 9, None, true));
    assert!(m.landmarks.is_empty());
}

#[test]
fn negative_count_wraps() {
    let mut m = Viewer::new();
    m.apply_landmark(landmark(1, -1, Some((0.0, 0.0, 0.0)), true));
    assert_eq!(m.landmarks.get(&1).unwrap().num_observations, u32::MAX);
    assert_eq!(m.max_lm_obs, 1);
}

#[test]
fn largest_count_bounds_landmarks() {
    let mut m = Viewer::new();
    for (id, n) in [(1u32, 5i32), (2, 3), (3, 12), (4, 7)] {
        m.apply_landmark(landmark(id, n, Some((0.0, 1.0, 0.0)), true));
        assert!(m.landmarks.values().all(|e| e.num_observations <= m.max_lm_obs));
    }
    assert_eq!(m.max_lm_obs, 12);
    m.apply_landmark(landmark(3, 0, None, true));
    assert_eq!(m.max_lm_obs, 12);
}

#[test]
fn first_keyframe_is_marked() {
    let mut m = Viewer::new();
    m.apply_keyframe(KeyframeUpdate { id: 4, frame: None });
    assert_eq!(m.marked_keyframe, None);
    m.apply_keyframe(KeyframeUpdate { id: 7, frame: Some(vec![1]) });
    m.apply_keyframe(KeyframeUpdate { id: 2, frame: Some(vec![2]) });
    assert_eq!(m.marked_keyframe, Some(7));
    assert_eq!(m.marked_frame(), Some(&vec![1]));
    m.apply_keyframe(KeyframeUpdate { id: 7, frame: None });
    assert_eq!(m.marked_keyframe, Some(7));
    assert_eq!(m.marked_frame(), None);
    assert_eq!(m.keyframes.get(&2), Some(&vec![2]));
}

#[test]
fn messages_set_tracker_and_lines() {
    let mut m = Viewer::new();
    let msgs = vec![
        message("TRACKING_STATE", "Initializing"),
        message("INFO", "hello"),
        message("TRACKING_STATE", "Bogus"),
        message("TRACKING_STATE", "Tracking"),
    ];
    let (announced, lines) = m.apply_messages(&msgs);
    assert_eq!(announced, vec![TrackerState::Initializing, TrackerState::Tracking]);
    assert_eq!(
        lines,
        vec![
            "[TRACKING_STATE]: Initializing".to_string(),
            "[INFO]: hello".to_string(),
            "[TRACKING_STATE]: Bogus".to_string(),
            "[TRACKING_STATE]: Tracking".to_string(),
        ]
    );
    assert_eq!(m.tracker_state, TrackerState::Tracking);
    let (announced, _) = m.apply_messages(&vec![message("INFO", "Lost")]);
    assert!(announced.is_empty());
    assert_eq!(m.tracker_state, TrackerState::Tracking);
}

#[test]
fn whole_update() {
    let mut m = Viewer::new();
    let update = MapUpdate {
        landmarks: vec![
            landmark(1, 4, Some((0.0, 1.0, 0.0)), true),
            landmark(2, 1, Some((0.0, -1.0, 0.0)), false),
            landmark(1, 6, Some((0.0, 2.0, 0.0)), true),
        ],
        messages: vec![message("TRACKING_STATE", "Lost")],
        keyframes: vec![
            KeyframeUpdate { id: 10, frame: Some(vec![10]) },
            KeyframeUpdate { id: 11, frame: Some(vec![11]) },
        ],
        edges: vec![(10, 11), (10, 12), (11, 10), (13, 14)],
    };
    let report = m.apply_update(update);
    assert_eq!(report.announced, vec![TrackerState::Lost]);
    assert_eq!(report.lines, vec!["[TRACKING_STATE]: Lost".to_string()]);
    assert_eq!(report.edges, vec![(10, 11), (11, 10)]);
    assert_eq!(m.landmarks.len(), 2);
    assert_eq!(m.landmarks.get(&1).unwrap().num_observations, 6);
    assert_eq!(m.max_lm_obs, 6);
    assert_eq!(m.tracker_state, TrackerState::Lost);
    assert_eq!(m.marked_keyframe, Some(10));
}

#[test]
fn joined_edges_keep_order() {
    let mut m = Viewer::new();
    m.apply_keyframe(KeyframeUpdate { id: 1, frame: Some(vec![]) });
    m.apply_keyframe(KeyframeUpdate { id: 2, frame: Some(vec![]) });
    assert_eq!(m.joined_edges(&vec![(2, 1), (1, 3), (1, 1), (3, 3), (1, 2)]), vec![(2, 1), (1, 1), (1, 2)]);
    assert!(m.joined_edges(&vec![]).is_empty());
}

#[test]
fn visible_landmarks_filter() {
    let mut m = Viewer::new();
    m.apply_landmark(landmark(1, 5, Some((0.0, 1.0, 0.0)), true));
    m.apply_landmark(landmark(2, 1, Some((0.0, 1.0, 0.0)), true));
    m.apply_landmark(landmark(3, 9, Some((0.0, -1.0, 0.0)), false));
    let mut ids = m.visible_landmarks();
    ids.sort();
    assert_eq!(ids, vec![1, 2]);
    m.set_min_lm_obs(3);
    assert_eq!(m.min_lm_obs, 3);
    assert_eq!(m.visible_landmarks(), vec![1]);
    m.set_min_lm_obs(10);
    assert!(m.visible_landmarks().is_empty());
}

#[test]
fn landmark_entry_visibility() {
    let e = LandmarkEntry { point: (), num_observations: 3, above_ground: true };
    assert!(e.is_visible(3));
    assert!(!e.is_visible(4));
    let below = LandmarkEntry { point: (), num_observations: 3, above_ground: false };
    assert!(!below.is_visible(0));
}
