use std::collections::HashMap;
use vstd::prelude::*;
use crate::tracker::{TrackerState, announced_state, announced_tracker_state};
use vstd::std_specs::iter::IteratorSpec;

verus! {

broadcast use vstd::std_specs::hash::group_hash_axioms;

/// A signed observation count read as the unsigned count the map keeps: a
/// negative count wraps around, as a two's-complement reinterpretation does.
pub open spec fn wrapped_count(n: i32) -> u32 {
    if n >= 0 {
        n as u32
    } else {
        (n + 0x1_0000_0000) as u32
    }
}

/// An unsigned count read back as a signed one, as a two's-complement
/// reinterpretation does.
pub open spec fn signed_count(m: u32) -> int {
    if m <= 0x7fff_ffff {
        m as int
    } else {
        m - 0x1_0000_0000
    }
}

fn to_unsigned(n: i32) -> (r: u32)
    ensures
        r == wrapped_count(n),
{
    assert(n < 0 ==> (n as u32) == n + 0x1_0000_0000) by (bit_vector);
    n as u32
}

fn to_signed(m: u32) -> (r: i32)
    ensures
        r == signed_count(m),
{
    assert(m > 0x7fff_ffff ==> (m as i32) == m - 0x1_0000_0000) by (bit_vector);
    m as i32
}

/// A landmark as the map keeps it: its point (position and colour, as the
/// viewer draws it), how often the SLAM server observed it, and whether it
/// lies above the ground plane.
#[derive(Debug, Clone, Copy, PartialEq, Eq)]
pub struct LandmarkEntry<P> {
    pub point: P,
    pub num_observations: u32,
    pub above_ground: bool,
}

/// Whether a landmark is drawn: observed at least `min_obs` times and above
/// the ground plane.
pub open spec fn landmark_visible<P>(entry: LandmarkEntry<P>, min_obs: u32) -> bool {
    entry.num_observations >= min_obs && entry.above_ground
}

impl<P> LandmarkEntry<P> {
    /// Whether the landmark is drawn when at least `min_obs` observations are
    /// asked for.
    pub fn is_visible(&self, min_obs: u32) -> (r: bool)
        ensures
            r == landmark_visible(*self, min_obs),
    {
        self.num_observations >= min_obs && self.above_ground
    }
}

/// One landmark of a SLAM update. `point` is `None` when the update carries no
/// coordinates for it: the landmark is gone from the map.
#[derive(Debug, Clone, Copy, PartialEq, Eq)]
pub struct LandmarkUpdate<P> {
    pub id: u32,
    pub num_observations: i32,
    pub point: Option<P>,
    pub above_ground: bool,
}

/// One keyframe of a SLAM update. `frame` is `None` when the update carries no
/// pose for it: the keyframe is gone from the map.
#[derive(Debug, Clone, PartialEq, Eq)]
pub struct KeyframeUpdate<F> {
    pub id: u32,
    pub frame: Option<F>,
}

/// A text message of a SLAM update.
#[derive(Debug, Clone, PartialEq, Eq)]
pub struct SlamMessage {
    pub tag: String,
    pub text: String,
}

/// A SLAM update: landmarks, messages and keyframes in the order the server
/// sent them, and the edges of its covisibility graph.
pub struct MapUpdate<P, F> {
    pub landmarks: Vec<LandmarkUpdate<P>>,
    pub messages: Vec<SlamMessage>,
    pub keyframes: Vec<KeyframeUpdate<F>>,
    pub edges: Vec<(u32, u32)>,
}

/// What the viewer learns from a SLAM update: the tracker states that its
/// messages announced, in order; the line to show for each message; and the
/// edges that join two keyframes of the map.
pub struct UpdateReport {
    pub announced: Vec<TrackerState>,
    pub lines: Vec<String>,
    pub edges: Vec<(u32, u32)>,
}

/// The map the viewer builds from SLAM updates: landmarks and keyframes by id,
/// the first keyframe it saw (marked), the largest observation count seen, the
/// least count a landmark needs to be drawn, and the tracker state.
pub struct SlamMap<P, F> {
    pub landmarks: HashMap<u32, LandmarkEntry<P>>,
    pub keyframes: HashMap<u32, F>,
    pub marked_keyframe: Option<u32>,
    pub max_lm_obs: u32,
    pub min_lm_obs: u32,
    pub tracker_state: TrackerState,
}

/// The map as values.
pub struct MapView<P, F> {
    pub landmarks: Map<u32, LandmarkEntry<P>>,
    pub keyframes: Map<u32, F>,
    pub marked_keyframe: Option<u32>,
    pub max_lm_obs: u32,
    pub min_lm_obs: u32,
    pub tracker_state: TrackerState,
}

impl<P, F> View for SlamMap<P, F> {
    type V = MapView<P, F>;

    open spec fn view(&self) -> MapView<P, F> {
        MapView {
            landmarks: self.landmarks@,
            keyframes: self.keyframes@,
            marked_keyframe: self.marked_keyframe,
            max_lm_obs: self.max_lm_obs,
            min_lm_obs: self.min_lm_obs,
            tracker_state: self.tracker_state,
        }
    }
}

/// Whether the map holds a landmark under `id` that is drawn.
pub open spec fn landmark_shown<P, F>(m: MapView<P, F>, id: u32) -> bool {
    m.landmarks.contains_key(id) && landmark_visible(m.landmarks[id], m.min_lm_obs)
}

/// The map after one landmark update: a landmark with coordinates is stored
/// under its id (replacing what was there), and raises the largest count when
/// its count exceeds it; a landmark without coordinates is removed.
pub open spec fn after_landmark<P, F>(m: MapView<P, F>, u: LandmarkUpdate<P>) -> MapView<P, F> {
    match u.point {
        Some(p) => MapView {
            landmarks: m.landmarks.insert(
                u.id,
                LandmarkEntry {
                    point: p,
                    num_observations: wrapped_count(u.num_observations),
                    above_ground: u.above_ground,
                },
            ),
            max_lm_obs: if u.num_observations > signed_count(m.max_lm_obs) {
                wrapped_count(u.num_observations)
            } else {
                m.max_lm_obs
            },
            ..m
        },
        None => MapView { landmarks: m.landmarks.remove(u.id), ..m },
    }
}

/// The map after one keyframe update: a keyframe with a pose is stored under
/// its id, and is marked when no keyframe is marked yet; a keyframe without a
/// pose is removed (the mark stays).
pub open spec fn after_keyframe<P, F>(m: MapView<P, F>, u: KeyframeUpdate<F>) -> MapView<P, F> {
    match u.frame {
        Some(f) => MapView {
            keyframes: m.keyframes.insert(u.id, f),
            marked_keyframe: if m.marked_keyframe is None {
                Some(u.id)
            } else {
                m.marked_keyframe
            },
            ..m
        },
        None => MapView { keyframes: m.keyframes.remove(u.id), ..m },
    }
}

/// The map after one message: a message that announces a tracker state sets
/// it; any other leaves the map as it is.
pub open spec fn after_message<P, F>(m: MapView<P, F>, tag: Seq<char>, text: Seq<char>) -> MapView<P, F> {
    match announced_state(tag, text) {
        Some(t) => MapView { tracker_state: t, ..m },
        None => m,
    }
}

/// The line that the viewer shows for a message: `[tag]: text`.
pub open spec fn message_line(tag: Seq<char>, text: Seq<char>) -> Seq<char> {
    "["@ + tag + "]: "@ + text
}

/// The map after a run of landmark updates, applied in order.
pub open spec fn after_landmarks<P, F>(m: MapView<P, F>, ups: Seq<LandmarkUpdate<P>>) -> MapView<P, F>
    decreases ups.len(),
{
    if ups.len() == 0 {
        m
    } else {
        after_landmark(after_landmarks(m, ups.drop_last()), ups.last())
    }
}

/// The map after a run of keyframe updates, applied in order.
pub open spec fn after_keyframes<P, F>(m: MapView<P, F>, ups: Seq<KeyframeUpdate<F>>) -> MapView<P, F>
    decreases ups.len(),
{
    if ups.len() == 0 {
        m
    } else {
        after_keyframe(after_keyframes(m, ups.drop_last()), ups.last())
    }
}

/// The map after a run of messages, applied in order.
pub open spec fn after_messages<P, F>(m: MapView<P, F>, msgs: Seq<SlamMessage>) -> MapView<P, F>
    decreases msgs.len(),
{
    if msgs.len() == 0 {
        m
    } else {
        after_message(after_messages(m, msgs.drop_last()), msgs.last().tag@, msgs.last().text@)
    }
}

/// The tracker states that a run of messages announces, in order.
pub open spec fn announcements(msgs: Seq<SlamMessage>) -> Seq<TrackerState> {
    msgs.filter_map(|msg: SlamMessage| announced_state(msg.tag@, msg.text@))
}

/// The lines that the viewer shows for a run of messages, one per message.
pub open spec fn message_lines(msgs: Seq<SlamMessage>) -> Seq<Seq<char>> {
    msgs.map_values(|msg: SlamMessage| message_line(msg.tag@, msg.text@))
}

/// Whether an edge joins two keyframes of the map.
pub open spec fn joins_keyframes<F>(keyframes: Map<u32, F>, edge: (u32, u32)) -> bool {
    keyframes.contains_key(edge.0) && keyframes.contains_key(edge.1)
}

/// The map after a whole SLAM update: its landmarks, then its messages, then
/// its keyframes.
pub open spec fn after_update<P, F>(m: MapView<P, F>, u: MapUpdate<P, F>) -> MapView<P, F> {
    after_keyframes(after_messages(after_landmarks(m, u.landmarks@), u.messages@), u.keyframes@)
}

impl<P, F> SlamMap<P, F> {
    /// An empty map: no landmarks or keyframes, none marked, a largest count
    /// of 1, no least count, and the tracker not initialized.
    pub fn new() -> (s: Self)
        ensures
            s@.landmarks == Map::<u32, LandmarkEntry<P>>::empty(),
            s@.keyframes == Map::<u32, F>::empty(),
            s@.marked_keyframe is None,
            s@.max_lm_obs == 1,
            s@.min_lm_obs == 0,
            s@.tracker_state == TrackerState::NotInitialized,
            counts_bounded(s@),
    {
        SlamMap {
            landmarks: HashMap::new(),
            keyframes: HashMap::new(),
            marked_keyframe: None,
            max_lm_obs: 1,
            min_lm_obs: 0,
            tracker_state: TrackerState::NotInitialized,
        }
    }

    /// Sets the least observation count that a drawn landmark needs.
    pub fn set_min_lm_obs(&mut self, min_lm_obs: u32)
        ensures
            final(self)@ == (MapView { min_lm_obs: min_lm_obs, ..old(self)@ }),
    {
        self.min_lm_obs = min_lm_obs;
    }

    /// Applies one landmark update.
    pub fn apply_landmark(&mut self, update: LandmarkUpdate<P>)
        ensures
            final(self)@ == after_landmark(old(self)@, update),
    {
        match update.point {
            Some(point) => {
                if update.num_observations > to_signed(self.max_lm_obs) {
                    self.max_lm_obs = to_unsigned(update.num_observations);
                }
                let entry = LandmarkEntry {
                    point,
                    num_observations: to_unsigned(update.num_observations),
                    above_ground: update.above_ground,
                };
                self.landmarks.insert(update.id, entry);
            },
            None => {
                self.landmarks.remove(&update.id);
            },
        }
    }

    /// Applies one keyframe update.
    pub fn apply_keyframe(&mut self, update: KeyframeUpdate<F>)
        ensures
            final(self)@ == after_keyframe(old(self)@, update),
    {
        match update.frame {
            Some(frame) => {
                self.keyframes.insert(update.id, frame);
                if self.marked_keyframe.is_none() {
                    self.marked_keyframe = Some(update.id);
                }
            },
            None => {
                self.keyframes.remove(&update.id);
            },
        }
    }

    /// Applies one message, and gives the tracker state it announces.
    pub fn apply_message(&mut self, tag: &str, text: &str) -> (r: Option<TrackerState>)
        ensures
            r == announced_state(tag@, text@),
            final(self)@ == after_message(old(self)@, tag@, text@),
    {
        let announced = announced_tracker_state(tag, text);
        match announced {
            Some(t) => {
                self.tracker_state = t;
            },
            None => {},
        }
        announced
    }
}

impl<P, F> SlamMap<P, F> {
    /// Applies landmark updates in order.
    pub fn apply_landmarks(&mut self, updates: Vec<LandmarkUpdate<P>>)
        ensures
            final(self)@ == after_landmarks(old(self)@, updates@),
    {
        let ghost start = self@;
        let ghost ups = updates@;
        for u in it: updates.into_iter()
            invariant
                it.seq() == ups,
                self@ == after_landmarks(start, ups.take(it.index())),
        {
            proof {
                assert(ups.take(it.index() + 1).drop_last() == ups.take(it.index()));
            }
            self.apply_landmark(u);
        }
        proof {
            assert(ups.take(ups.len() as int) == ups);
        }
    }
}

impl<P, F> SlamMap<P, F> {
    /// Applies keyframe updates in order.
    pub fn apply_keyframes(&mut self, updates: Vec<KeyframeUpdate<F>>)
        ensures
            final(self)@ == after_keyframes(old(self)@, updates@),
    {
        let ghost start = self@;
        let ghost ups = updates@;
        for u in it: updates.into_iter()
            invariant
                it.seq() == ups,
                self@ == after_keyframes(start, ups.take(it.index())),
        {
            proof {
                assert(ups.take(it.index() + 1).drop_last() == ups.take(it.index()));
            }
            self.apply_keyframe(u);
        }
        proof {
            assert(ups.take(ups.len() as int) == ups);
        }
    }

    /// Applies messages in order, and gives the tracker states they announce
    /// and the line to show for each.
    pub fn apply_messages(&mut self, messages: &Vec<SlamMessage>) -> (r: (Vec<TrackerState>, Vec<String>))
        ensures
            final(self)@ == after_messages(old(self)@, messages@),
            r.0@ == announcements(messages@),
            r.1@.map_values(|line: String| line@) == message_lines(messages@),
    {
        let ghost start = self@;
        let ghost msgs = messages@;
        let mut announced: Vec<TrackerState> = Vec::new();
        let mut lines: Vec<String> = Vec::new();
        for i in 0..messages.len()
            invariant
                msgs == messages@,
                self@ == after_messages(start, msgs.take(i as int)),
                announced@ == announcements(msgs.take(i as int)),
                lines@.len() == i,
                forall|j: int| 0 <= j < i ==> #[trigger] lines@[j]@ == message_line(msgs[j].tag@, msgs[j].text@),
        {
            let msg = &messages[i];
            proof {
                assert(msgs.take(i + 1).drop_last() == msgs.take(i as int));
                assert(msgs.take(i + 1).last() == msgs[i as int]);
            }
            let line = format_message(msg.tag.as_str(), msg.text.as_str());
            lines.push(line);
            let state = self.apply_message(msg.tag.as_str(), msg.text.as_str());
            match state {
                Some(t) => announced.push(t),
                None => {},
            }
        }
        proof {
            assert(msgs.take(msgs.len() as int) == msgs);
            assert(lines@.map_values(|line: String| line@) =~= message_lines(msgs));
        }
        (announced, lines)
    }

    /// The edges that join two keyframes of the map, in the order given.
    pub fn joined_edges(&self, edges: &Vec<(u32, u32)>) -> (r: Vec<(u32, u32)>)
        ensures
            r@ == edges@.filter(|e: (u32, u32)| joins_keyframes(self.keyframes@, e)),
    {
        let ghost keep = |e: (u32, u32)| joins_keyframes(self.keyframes@, e);
        let mut joined: Vec<(u32, u32)> = Vec::new();
        for i in 0..edges.len()
            invariant
                keep == (|e: (u32, u32)| joins_keyframes(self.keyframes@, e)),
                joined@ == edges@.take(i as int).filter(keep),
        {
            let e = edges[i];
            proof {
                reveal(Seq::filter);
                assert(edges@.take(i + 1).drop_last() == edges@.take(i as int));
            }
            if self.keyframes.contains_key(&e.0) && self.keyframes.contains_key(&e.1) {
                joined.push(e);
            }
        }
        proof {
            assert(edges@.take(edges.len() as int) == edges@);
        }
        joined
    }
}

impl<P, F> SlamMap<P, F> {
    /// Applies a whole SLAM update: its landmarks, then its messages, then its
    /// keyframes; reports the tracker states its messages announced, the line
    /// for each message, and those of its edges that join two keyframes of the
    /// updated map.
    pub fn apply_update(&mut self, update: MapUpdate<P, F>) -> (r: UpdateReport)
        ensures
            final(self)@ == after_update(old(self)@, update),
            r.announced@ == announcements(update.messages@),
            r.lines@.map_values(|line: String| line@) == message_lines(update.messages@),
            r.edges@ == update.edges@.filter(|e: (u32, u32)| joins_keyframes(final(self)@.keyframes, e)),
    {
        let MapUpdate { landmarks, messages, keyframes, edges } = update;
        self.apply_landmarks(landmarks);
        let (announced, lines) = self.apply_messages(&messages);
        self.apply_keyframes(keyframes);
        let joined = self.joined_edges(&edges);
        UpdateReport { announced, lines, edges: joined }
    }

    /// The ids of the landmarks that are drawn, each once, in no set order.
    pub fn visible_landmarks(&self) -> (ids: Vec<u32>)
        ensures
            ids@.no_duplicates(),
            forall|id: u32| ids@.contains(id) <==> landmark_shown(self@, id),
    {
        let ghost keys = vstd::std_specs::hash::spec_keys_iter(&self.landmarks).remaining().unref();
        proof {
            assert(keys.to_set() == self.landmarks@.dom());
            assert(keys.no_duplicates());
        }
        let mut ids: Vec<u32> = Vec::new();
        for id in it: self.landmarks.keys()
            invariant
                it.seq().unref() == keys,
                keys.no_duplicates(),
                keys.to_set() == self.landmarks@.dom(),
                ids@.no_duplicates(),
                forall|j: int|
                    0 <= j < ids@.len() ==> keys.take(it.index()).contains(#[trigger] ids@[j])
                        && landmark_shown(self@, ids@[j]),
                forall|p: int|
                    0 <= p < it.index() && landmark_shown(self@, #[trigger] keys[p]) ==> ids@.contains(keys[p]),
        {
            let key: u32 = *id;
            let ghost i = it.index();
            assert(key == keys[i]);
            let ghost before = ids@;
            match self.landmarks.get(&key) {
                Some(e) => {
                    if e.is_visible(self.min_lm_obs) {
                        proof {
                            if before.contains(key) {
                                let j = choose|j: int| 0 <= j < before.len() && before[j] == key;
                                assert(keys.take(i).contains(before[j]));
                                let q = choose|q: int| 0 <= q < i && keys.take(i)[q] == key;
                                assert(keys[q] == keys[i]);
                            }
                        }
                        ids.push(key);
                        proof {
                            assert(ids@[ids@.len() - 1] == key);
                        }
                    }
                },
                None => {},
            }
            proof {
                assert forall|j: int| 0 <= j < ids@.len() implies keys.take(i + 1).contains(#[trigger] ids@[j])
                    && landmark_shown(self@, ids@[j]) by {
                    if j < before.len() {
                        assert(keys.take(i).contains(before[j]));
                        let q = choose|q: int| 0 <= q < i && keys.take(i)[q] == before[j];
                        assert(keys.take(i + 1)[q] == before[j]);
                    } else {
                        assert(keys.take(i + 1)[i] == key);
                    }
                }
                assert forall|p: int| 0 <= p < i + 1 && landmark_shown(self@, #[trigger] keys[p]) implies ids@.contains(keys[p]) by {
                    if p < i {
                        assert(before.contains(keys[p]));
                        let j = choose|j: int| 0 <= j < before.len() && before[j] == keys[p];
                        assert(ids@[j] == keys[p]);
                    }
                }
            }
        }
        proof {
            assert forall|id: u32| landmark_shown(self@, id) implies ids@.contains(id) by {
                assert(keys.to_set().contains(id));
                let p = choose|p: int| 0 <= p < keys.len() && keys[p] == id;
                assert(landmark_shown(self@, keys[p]));
            }
        }
        ids
    }

    /// The marked keyframe, if one is marked and still in the map.
    pub fn marked_frame(&self) -> (r: Option<&F>)
        ensures
            r == (match self.marked_keyframe {
                Some(id) => if self.keyframes@.contains_key(id) {
                    Some(&self.keyframes@[id])
                } else {
                    None
                },
                None => None,
            }),
    {
        match self.marked_keyframe {
            Some(id) => self.keyframes.get(&id),
            None => None,
        }
    }
}

/// The id of the first keyframe in a run of updates that carries a pose.
pub open spec fn first_stored<F>(ups: Seq<KeyframeUpdate<F>>) -> Option<u32>
    decreases ups.len(),
{
    if ups.len() == 0 {
        None
    } else {
        match first_stored(ups.drop_last()) {
            Some(id) => Some(id),
            None => if ups.last().frame is Some {
                Some(ups.last().id)
            } else {
                None
            },
        }
    }
}

/// Every landmark of the map has at most the largest observation count, and
/// that count fits a signed 32-bit count.
pub open spec fn counts_bounded<P, F>(m: MapView<P, F>) -> bool {
    &&& m.max_lm_obs <= 0x7fff_ffff
    &&& forall|id: u32| #[trigger]
        m.landmarks.contains_key(id) ==> m.landmarks[id].num_observations <= m.max_lm_obs
}

/// A landmark update reads back: after an update with coordinates the map
/// holds, under its id, the landmark with the update's point, count and
/// ground flag; after one without, the map holds nothing under its id. Every
/// other landmark, and the keyframes, stay as they were.
pub proof fn lemma_landmark_read_back<P, F>(m: MapView<P, F>, u: LandmarkUpdate<P>, other: u32)
    requires
        other != u.id,
    ensures
        ({
            let n = after_landmark(m, u);
            &&& u.point matches Some(p) ==> n.landmarks.contains_key(u.id) && n.landmarks[u.id] == (
            LandmarkEntry {
                point: p,
                num_observations: wrapped_count(u.num_observations),
                above_ground: u.above_ground,
            })
            &&& u.point is None ==> !n.landmarks.contains_key(u.id)
            &&& n.landmarks.contains_key(other) == m.landmarks.contains_key(other)
            &&& n.landmarks.contains_key(other) ==> n.landmarks[other] == m.landmarks[other]
            &&& n.keyframes == m.keyframes
            &&& n.marked_keyframe == m.marked_keyframe
        }),
{
}

/// With non-negative observation counts, the largest count bounds the count of
/// every landmark in the map and never decreases: a map that starts empty (or
/// bounded) stays bounded through every update.
pub proof fn lemma_max_count_bounds_landmarks<P, F>(m: MapView<P, F>, u: LandmarkUpdate<P>)
    requires
        counts_bounded(m),
        u.num_observations >= 0,
    ensures
        counts_bounded(after_landmark(m, u)),
        after_landmark(m, u).max_lm_obs >= m.max_lm_obs,
{
}

/// A keyframe update reads back: after an update with a frame the map holds,
/// under its id, exactly that frame (a known keyframe's frame is replaced);
/// after one without, the map holds nothing under its id. Every other keyframe,
/// and the landmarks, stay as they were; a mark already set stays, and a map
/// with no mark marks the stored keyframe.
pub proof fn lemma_keyframe_read_back<P, F>(m: MapView<P, F>, u: KeyframeUpdate<F>, other: u32)
    requires
        other != u.id,
    ensures
        ({
            let n = after_keyframe(m, u);
            &&& u.frame matches Some(f) ==> n.keyframes.contains_key(u.id) && n.keyframes[u.id] == f
            &&& u.frame is None ==> !n.keyframes.contains_key(u.id)
            &&& n.keyframes.contains_key(other) == m.keyframes.contains_key(other)
            &&& n.keyframes.contains_key(other) ==> n.keyframes[other] == m.keyframes[other]
            &&& n.landmarks == m.landmarks
            &&& m.marked_keyframe is Some ==> n.marked_keyframe == m.marked_keyframe
            &&& (m.marked_keyframe is None && u.frame is Some) ==> n.marked_keyframe == Some(u.id)
            &&& (m.marked_keyframe is None && u.frame is None) ==> n.marked_keyframe is None
        }),
{
}

/// A landmark is drawn exactly when it was observed at least the minimum number
/// of times and lies above the ground. So visibility is monotone: a visible
/// landmark stays visible with a higher count or a lower minimum.
pub proof fn lemma_visibility<P>(e: LandmarkEntry<P>, min_obs: u32, more: u32, lower_min: u32)
    ensures
        landmark_visible(e, min_obs) <==> (e.num_observations >= min_obs && e.above_ground),
        landmark_visible(e, min_obs) && more >= e.num_observations ==> landmark_visible(
            LandmarkEntry { num_observations: more, ..e },
            min_obs,
        ),
        landmark_visible(e, min_obs) && lower_min <= min_obs ==> landmark_visible(e, lower_min),
        !e.above_ground ==> !landmark_visible(e, min_obs),
{
}

/// A landmark of the map is drawn exactly when the map holds it with at least
/// the map's minimum count and above the ground.
pub proof fn lemma_landmark_shown<P, F>(m: MapView<P, F>, id: u32)
    ensures
        landmark_shown(m, id) <==> (m.landmarks.contains_key(id) && m.landmarks[id].num_observations
            >= m.min_lm_obs && m.landmarks[id].above_ground),
{
}

/// The edges drawn are exactly the given edges both of whose ends are keyframes
/// of the map, in the given order: every edge kept has both ends in the map,
/// every given edge with both ends in the map is kept, and nothing else is.
pub proof fn lemma_joined_edges<F>(keyframes: Map<u32, F>, edges: Seq<(u32, u32)>)
    ensures
        ({
            let r = edges.filter(|e: (u32, u32)| joins_keyframes(keyframes, e));
            &&& r == edges.filter(
                |e: (u32, u32)| keyframes.contains_key(e.0) && keyframes.contains_key(e.1),
            )
            &&& forall|i: int|
                0 <= i < r.len() ==> keyframes.contains_key(#[trigger] r[i].0) && keyframes.contains_key(
                    r[i].1,
                )
            &&& forall|i: int|
                0 <= i < edges.len() && keyframes.contains_key(#[trigger] edges[i].0)
                    && keyframes.contains_key(edges[i].1) ==> r.contains(edges[i])
            &&& forall|e: (u32, u32)| r.contains(e) ==> edges.contains(e)
        }),
{
    let keep = |e: (u32, u32)| joins_keyframes(keyframes, e);
    let explicit = |e: (u32, u32)| keyframes.contains_key(e.0) && keyframes.contains_key(e.1);
    assert(keep =~= explicit);
    edges.filter_lemma(keep);
    assert forall|e: (u32, u32)| edges.filter(keep).contains(e) implies edges.contains(e) by {
        edges.lemma_filter_contains_rev(keep, e);
    }
}

/// A message's line is its tag in square brackets, a colon and a space, then
/// its text: four characters longer than tag and text together.
pub proof fn lemma_message_line(tag: Seq<char>, text: Seq<char>)
    ensures
        ({
            let line = message_line(tag, text);
            let k = tag.len() as int;
            &&& line.len() == tag.len() + text.len() + 4
            &&& line[0] == '['
            &&& line.subrange(1, k + 1) == tag
            &&& line[k + 1] == ']'
            &&& line[k + 2] == ':'
            &&& line[k + 3] == ' '
            &&& line.subrange(k + 4, line.len() as int) == text
        }),
{
    reveal_strlit("[");
    reveal_strlit("]: ");
    let line = message_line(tag, text);
    let k = tag.len() as int;
    assert(line.subrange(1, k + 1) =~= tag);
    assert(line.subrange(k + 4, line.len() as int) =~= text);
}

/// The marked keyframe is the first keyframe that the map ever stored: once a
/// keyframe is marked the mark never moves, and a map with no mark takes the
/// first keyframe with a pose in the updates.
pub proof fn lemma_mark_is_first_keyframe<P, F>(m: MapView<P, F>, ups: Seq<KeyframeUpdate<F>>)
    ensures
        after_keyframes(m, ups).marked_keyframe == (match m.marked_keyframe {
            Some(id) => Some(id),
            None => first_stored(ups),
        }),
    decreases ups.len(),
{
    if ups.len() > 0 {
        lemma_mark_is_first_keyframe(m, ups.drop_last());
    }
}

/// The tracker state of the map is the last state that the messages announced,
/// or the one it had when they announced none; messages touch nothing else.
pub proof fn lemma_tracker_follows_last_announcement<P, F>(m: MapView<P, F>, msgs: Seq<SlamMessage>)
    ensures
        after_messages(m, msgs).tracker_state == (if announcements(msgs).len() > 0 {
            announcements(msgs).last()
        } else {
            m.tracker_state
        }),
        after_messages(m, msgs) == (MapView { tracker_state: after_messages(m, msgs).tracker_state, ..m }),
    decreases msgs.len(),
{
    if msgs.len() > 0 {
        lemma_tracker_follows_last_announcement(m, msgs.drop_last());
    }
}

/// The line that the viewer shows for a message: `[tag]: text`.
pub fn format_message(tag: &str, text: &str) -> (line: String)
    ensures
        line@ == message_line(tag@, text@),
{
    let mut line = "[".to_owned();
    line.append(tag);
    line.append("]: ");
    line.append(text);
    line
}

} // verus!
