//! The reader's session: the current status, the player that is playing
//! and the local voice that is speaking. The application performs the
//! actions that the transitions return and reports the events back.

use vstd::prelude::*;
use crate::settings::AppSettings;
use crate::status::{
    error_word, fetching_word, idle_word, reading_word, ReadStatus, ReadStatusView,
};
use crate::text::{is_blank, is_blank_spec};

verus! {

/// The state of the reader.
pub struct Session {
    pub settings: AppSettings,
    pub status: ReadStatus,
    /// The player that is playing speech, by the token the application gave it.
    pub playback: Option<u64>,
    /// Whether a local voice process is speaking.
    pub local_speaking: bool,
}

/// The part of a [`Session`] that the transitions change.
pub struct SessionView {
    pub status: ReadStatusView,
    pub playback: Option<u64>,
    pub local_speaking: bool,
}

impl View for Session {
    type V = SessionView;

    open spec fn view(&self) -> SessionView {
        SessionView { status: self.status@, playback: self.playback, local_speaking: self.local_speaking }
    }
}

/// A status with the given state word and message.
pub open spec fn status_of(state: Seq<char>, message: Seq<char>) -> ReadStatusView {
    ReadStatusView { state, message }
}

/// After a stop: nothing plays, nothing speaks, the status is `Idle`,
/// "Stopped.".
pub open spec fn after_stop(v: SessionView) -> SessionView {
    SessionView { status: status_of(idle_word(), "Stopped."@), playback: None, local_speaking: false }
}

/// After a player starts: it is the one that plays, and the status is
/// `Reading`, "Reading highlighted text.".
pub open spec fn after_playback_start(v: SessionView, player: u64) -> SessionView {
    SessionView {
        status: status_of(reading_word(), "Reading highlighted text."@),
        playback: Some(player),
        local_speaking: v.local_speaking,
    }
}

/// After `player` has played to its end: if it is still the one that
/// plays, nothing plays and the status is `Idle`, "Finished reading.";
/// otherwise (it was stopped or replaced) nothing changes.
pub open spec fn after_playback_end(v: SessionView, player: u64) -> SessionView {
    if v.playback == Some(player) {
        SessionView {
            status: status_of(idle_word(), "Finished reading."@),
            playback: None,
            local_speaking: v.local_speaking,
        }
    } else {
        v
    }
}

/// After the local voice starts: it speaks, and the status is `Reading`
/// with the given message.
pub open spec fn after_local_start(v: SessionView, message: Seq<char>) -> SessionView {
    SessionView {
        status: status_of(reading_word(), message),
        playback: v.playback,
        local_speaking: true,
    }
}

/// After a check of the local voice process: once a speaking process has
/// exited, nothing speaks and the status is `Idle`, "Finished reading.";
/// otherwise nothing changes.
pub open spec fn after_local_check(v: SessionView, exited: bool) -> SessionView {
    if v.local_speaking && exited {
        SessionView {
            status: status_of(idle_word(), "Finished reading."@),
            playback: v.playback,
            local_speaking: false,
        }
    } else {
        v
    }
}

/// What the application must do to stop reading.
pub struct StopActions {
    /// The player to stop, if one was playing.
    pub stop_player: Option<u64>,
    /// Whether to kill the local voice process.
    pub kill_local: bool,
    /// The status to report.
    pub status: ReadStatus,
}

impl Session {
    /// A fresh session with the given settings, `Idle` and "Ready.".
    pub fn new(settings: AppSettings) -> (s: Session)
        ensures
            s@ == (SessionView { status: status_of(idle_word(), "Ready."@), playback: None, local_speaking: false }),
            s.settings == settings,
    {
        Session { settings, status: ReadStatus::idle("Ready."), playback: None, local_speaking: false }
    }

    /// Makes `status` the current status.
    pub fn set_status(&mut self, status: ReadStatus)
        ensures
            final(self).status == status,
            final(self).playback == old(self).playback,
            final(self).local_speaking == old(self).local_speaking,
            final(self).settings == old(self).settings,
    {
        self.status = status;
    }

    /// Replaces the settings.
    pub fn save_settings(&mut self, settings: AppSettings)
        ensures
            final(self).settings == settings,
            final(self)@ == old(self)@,
    {
        self.settings = settings;
    }

    /// Stops reading: returns the player to stop and whether to kill the
    /// local voice, and reports `Idle`, "Stopped.".
    pub fn stop(&mut self) -> (actions: StopActions)
        ensures
            final(self)@ == after_stop(old(self)@),
            actions.stop_player == old(self).playback,
            actions.kill_local == old(self).local_speaking,
            actions.status == final(self).status,
            final(self).settings == old(self).settings,
    {
        let stop_player = self.playback;
        let kill_local = self.local_speaking;
        self.playback = None;
        self.local_speaking = false;
        let status = ReadStatus::idle("Stopped.");
        self.status = status.duplicate();
        StopActions { stop_player, kill_local, status }
    }

    /// Speech is being fetched: reports `FetchingVoice`, "Fetching Edge TTS
    /// audio...".
    pub fn begin_fetch(&mut self) -> (status: ReadStatus)
        ensures
            final(self).status == status,
            status@ == status_of(fetching_word(), "Fetching Edge TTS audio..."@),
            final(self).playback == old(self).playback,
            final(self).local_speaking == old(self).local_speaking,
            final(self).settings == old(self).settings,
    {
        let status = ReadStatus::fetching("Fetching Edge TTS audio...");
        self.status = status.duplicate();
        status
    }

    /// `player` has started playing.
    pub fn start_playback(&mut self, player: u64) -> (status: ReadStatus)
        ensures
            final(self)@ == after_playback_start(old(self)@, player),
            final(self).status == status,
            final(self).settings == old(self).settings,
    {
        self.playback = Some(player);
        let status = ReadStatus::reading("Reading highlighted text.");
        self.status = status.duplicate();
        status
    }

    /// `player` has played to its end; returns whether the status changed
    /// (and is to be reported).
    pub fn playback_ended(&mut self, player: u64) -> (changed: bool)
        ensures
            final(self)@ == after_playback_end(old(self)@, player),
            changed == (old(self).playback == Some(player)),
            !changed ==> *final(self) == *old(self),
            final(self).settings == old(self).settings,
    {
        if self.playback == Some(player) {
            self.playback = None;
            self.status = ReadStatus::idle("Finished reading.");
            true
        } else {
            false
        }
    }

    /// The local voice has started speaking, reported with `message`.
    pub fn start_local(&mut self, message: &str) -> (status: ReadStatus)
        ensures
            final(self)@ == after_local_start(old(self)@, message@),
            final(self).status == status,
            final(self).settings == old(self).settings,
    {
        self.local_speaking = true;
        let status = ReadStatus::reading(message);
        self.status = status.duplicate();
        status
    }

    /// A check of the local voice process found it `exited` or still
    /// running; returns whether it finished (and the status changed).
    pub fn local_checked(&mut self, exited: bool) -> (finished: bool)
        ensures
            final(self)@ == after_local_check(old(self)@, exited),
            finished == (old(self).local_speaking && exited),
            !finished ==> *final(self) == *old(self),
            final(self).settings == old(self).settings,
    {
        if self.local_speaking && exited {
            self.local_speaking = false;
            self.status = ReadStatus::idle("Finished reading.");
            true
        } else {
            false
        }
    }

    /// Refuses a selection that is empty once trimmed: reports `Error`,
    /// "No highlighted text was detected." and returns that status; leaves
    /// the session as it is for any other selection.
    pub fn reject_blank_selection(&mut self, text: &str) -> (r: Option<ReadStatus>)
        ensures
            is_blank_spec(text@) ==> (r matches Some(status) && status == final(self).status
                && status@ == status_of(error_word(), "No highlighted text was detected."@)
                && final(self).playback == old(self).playback && final(self).local_speaking
                == old(self).local_speaking && final(self).settings == old(self).settings),
            !is_blank_spec(text@) ==> r is None && *final(self) == *old(self),
    {
        if is_blank(text) {
            let status = ReadStatus::error("No highlighted text was detected.");
            self.status = status.duplicate();
            Some(status)
        } else {
            None
        }
    }
}

/// A player's end reported after a stop changes nothing: stopping wins
/// over a late end of the stopped player.
pub proof fn law_end_after_stop_is_ignored(v: SessionView, player: u64)
    ensures
        after_playback_end(after_stop(v), player) == after_stop(v),
{
}

/// A player's end reported after another player started changes nothing:
/// only the current player's end makes the reader idle.
pub proof fn law_end_of_replaced_player_is_ignored(v: SessionView, old_player: u64, new_player: u64)
    requires
        old_player != new_player,
    ensures
        after_playback_end(after_playback_start(v, new_player), old_player) == after_playback_start(
            v,
            new_player,
        ),
{
}

/// A player that starts and plays to its end leaves the reader idle with
/// "Finished reading." and nothing playing.
pub proof fn law_played_to_end_is_idle(v: SessionView, player: u64)
    ensures
        after_playback_end(after_playback_start(v, player), player).playback == None::<u64>,
        after_playback_end(after_playback_start(v, player), player).status == status_of(
            idle_word(),
            "Finished reading."@,
        ),
{
}

/// After a stop, a check of the local voice changes nothing.
pub proof fn law_local_check_after_stop_is_ignored(v: SessionView, exited: bool)
    ensures
        after_local_check(after_stop(v), exited) == after_stop(v),
{
}

/// Stopping twice is stopping once.
pub proof fn law_stop_is_idempotent(v: SessionView)
    ensures
        after_stop(after_stop(v)) == after_stop(v),
{
}

} // verus!
