//! The reading status reported to the control panel.

use vstd::prelude::*;

verus! {

/// The word `Idle`.
pub open spec fn idle_word() -> Seq<char> {
    seq!['I', 'd', 'l', 'e']
}

/// The word `Reading`.
pub open spec fn reading_word() -> Seq<char> {
    seq!['R', 'e', 'a', 'd', 'i', 'n', 'g']
}

/// The word `FetchingVoice`.
pub open spec fn fetching_word() -> Seq<char> {
    seq!['F', 'e', 't', 'c', 'h', 'i', 'n', 'g', 'V', 'o', 'i', 'c', 'e']
}

/// The word `Error`.
pub open spec fn error_word() -> Seq<char> {
    seq!['E', 'r', 'r', 'o', 'r']
}

/// What the reader is doing, and a message for the user.
pub struct ReadStatus {
    pub state: String,
    pub message: String,
}

/// The characters of a [`ReadStatus`].
pub struct ReadStatusView {
    pub state: Seq<char>,
    pub message: Seq<char>,
}

impl View for ReadStatus {
    type V = ReadStatusView;

    open spec fn view(&self) -> ReadStatusView {
        ReadStatusView { state: self.state@, message: self.message@ }
    }
}

impl ReadStatus {
    /// A copy of this status.
    pub fn duplicate(&self) -> (s: ReadStatus)
        ensures
            s == *self,
    {
        ReadStatus { state: self.state.clone(), message: self.message.clone() }
    }

    /// Nothing is being read.
    pub fn idle(message: &str) -> (s: ReadStatus)
        ensures
            s.state@ == idle_word(),
            s.message@ == message@,
    {
        let state = "Idle".to_string();
        proof { reveal_strlit("Idle"); }
        ReadStatus { state, message: message.to_string() }
    }

    /// Speech is playing.
    pub fn reading(message: &str) -> (s: ReadStatus)
        ensures
            s.state@ == reading_word(),
            s.message@ == message@,
    {
        let state = "Reading".to_string();
        proof { reveal_strlit("Reading"); }
        ReadStatus { state, message: message.to_string() }
    }

    /// Speech is being fetched from the speech service.
    pub fn fetching(message: &str) -> (s: ReadStatus)
        ensures
            s.state@ == fetching_word(),
            s.message@ == message@,
    {
        let state = "FetchingVoice".to_string();
        proof { reveal_strlit("FetchingVoice"); }
        ReadStatus { state, message: message.to_string() }
    }

    /// Something went wrong.
    pub fn error(message: &str) -> (s: ReadStatus)
        ensures
            s.state@ == error_word(),
            s.message@ == message@,
    {
        let state = "Error".to_string();
        proof { reveal_strlit("Error"); }
        ReadStatus { state, message: message.to_string() }
    }
}

} // verus!
