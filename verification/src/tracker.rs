use vstd::prelude::*;

verus! {

/// The state of the SLAM tracker, as reported in its `TRACKING_STATE` messages.
#[derive(Debug, Clone, Copy, PartialEq, Eq, Structural)]
pub enum TrackerState {
    NotInitialized,
    Initializing,
    Tracking,
    Lost,
}

/// The tag of the messages that carry the tracker's state.
pub open spec fn tracking_tag() -> Seq<char> {
    "TRACKING_STATE"@
}

/// The text that names each tracker state.
pub open spec fn state_label(state: TrackerState) -> Seq<char> {
    match state {
        TrackerState::NotInitialized => "NotInitialized"@,
        TrackerState::Initializing => "Initializing"@,
        TrackerState::Tracking => "Tracking"@,
        TrackerState::Lost => "Lost"@,
    }
}

/// The state that a text names, if it names one.
pub open spec fn parse_state(text: Seq<char>) -> Option<TrackerState> {
    if text == "NotInitialized"@ {
        Some(TrackerState::NotInitialized)
    } else if text == "Initializing"@ {
        Some(TrackerState::Initializing)
    } else if text == "Tracking"@ {
        Some(TrackerState::Tracking)
    } else if text == "Lost"@ {
        Some(TrackerState::Lost)
    } else {
        None
    }
}

/// The state that a message with this tag and text announces: its text parsed
/// as a state, when the tag is the tracking tag.
pub open spec fn announced_state(tag: Seq<char>, text: Seq<char>) -> Option<TrackerState> {
    if tag == tracking_tag() {
        parse_state(text)
    } else {
        None
    }
}

impl TrackerState {
    /// Reads a tracker state from its name; any other text names no state.
    pub fn from_label(label: &str) -> (r: Option<TrackerState>)
        ensures
            r == parse_state(label@),
    {
        let text = label.to_owned();
        if text == "NotInitialized".to_owned() {
            Some(TrackerState::NotInitialized)
        } else if text == "Initializing".to_owned() {
            Some(TrackerState::Initializing)
        } else if text == "Tracking".to_owned() {
            Some(TrackerState::Tracking)
        } else if text == "Lost".to_owned() {
            Some(TrackerState::Lost)
        } else {
            None
        }
    }

    /// The name of the state, as the viewer shows it.
    pub fn label(&self) -> (r: &'static str)
        ensures
            r@ == state_label(*self),
    {
        match self {
            TrackerState::NotInitialized => "NotInitialized",
            TrackerState::Initializing => "Initializing",
            TrackerState::Tracking => "Tracking",
            TrackerState::Lost => "Lost",
        }
    }

    /// Whether the tracker currently follows the camera.
    pub fn is_tracking(&self) -> (r: bool)
        ensures
            r == (*self == TrackerState::Tracking),
    {
        match self {
            TrackerState::Tracking => true,
            _ => false,
        }
    }
}

/// The tracker state that a SLAM message announces: `Some` exactly when its tag
/// is `TRACKING_STATE` and its text names a state.
pub fn announced_tracker_state(tag: &str, text: &str) -> (r: Option<TrackerState>)
    ensures
        r == announced_state(tag@, text@),
{
    if tag.to_owned() == "TRACKING_STATE".to_owned() {
        TrackerState::from_label(text)
    } else {
        None
    }
}

/// Each state's name reads back as that state.
pub proof fn lemma_label_round_trip(state: TrackerState)
    ensures
        parse_state(state_label(state)) == Some(state),
{
    reveal_strlit("NotInitialized");
    reveal_strlit("Initializing");
    reveal_strlit("Tracking");
    reveal_strlit("Lost");
    assert("NotInitialized"@.len() == 14);
    assert("Initializing"@.len() == 12);
    assert("Tracking"@.len() == 8);
    assert("Lost"@.len() == 4);
}

/// Only a message tagged `TRACKING_STATE` announces a state, and it announces
/// the state its text names: each of the four names gives its state, and any
/// other text gives none.
pub proof fn lemma_announcement(tag: Seq<char>, text: Seq<char>)
    ensures
        tag != "TRACKING_STATE"@ ==> announced_state(tag, text) is None,
        announced_state("TRACKING_STATE"@, "NotInitialized"@) == Some(TrackerState::NotInitialized),
        announced_state("TRACKING_STATE"@, "Initializing"@) == Some(TrackerState::Initializing),
        announced_state("TRACKING_STATE"@, "Tracking"@) == Some(TrackerState::Tracking),
        announced_state("TRACKING_STATE"@, "Lost"@) == Some(TrackerState::Lost),
        (text != "NotInitialized"@ && text != "Initializing"@ && text != "Tracking"@ && text
            != "Lost"@) ==> announced_state(tag, text) is None,
        announced_state(tag, text) is Some ==> state_label(announced_state(tag, text)->0) == text,
{
    lemma_label_round_trip(TrackerState::NotInitialized);
    lemma_label_round_trip(TrackerState::Initializing);
    lemma_label_round_trip(TrackerState::Tracking);
    lemma_label_round_trip(TrackerState::Lost);
}

} // verus!
