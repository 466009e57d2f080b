//! The live audio sessions and their control surface.
//!
//! A [`SessionControl`] stands for one output-audio session of one
//! process: its control-surface volume (in thousandths, at most
//! [`FULL_VOLUME`]) and its mute flag. The platform layer fills a vector
//! of these from the operating system and writes any volume or mute
//! change that the operations here decide on back to the device; the
//! decisions themselves are made, and verified, on the vector.
//!
//! Session identity is the process id alone, and every operation binds
//! to the first session of the given process, as [`find_session`] says.

use vstd::prelude::*;
use crate::decimal::{spec_decimal, u32_to_decimal};

verus! {

/// Full control-surface volume, in thousandths of scale.
pub const FULL_VOLUME: u32 = 1000;

/// The failures of the session and boost operations.
#[derive(Debug, Clone, PartialEq, Eq)]
pub enum BoostError {
    /// A negative boost factor was requested; nothing was changed.
    InvalidFactor,
    /// No live session belongs to the given process id.
    SessionNotFound(u32),
    /// The platform's session provider failed; the detail is its own text.
    ProviderError(String),
}

/// One live audio session as the provider exposes it.
#[derive(Debug, Clone)]
pub struct SessionControl {
    /// The id of the process that owns the session.
    pub process_id: u32,
    /// The session's display name.
    pub display_name: String,
    /// The control-surface volume, in thousandths; at most [`FULL_VOLUME`].
    pub volume: u32,
    /// Whether the session is muted.
    pub muted: bool,
}

/// A session described for display and selection, produced fresh on
/// every enumeration.
#[derive(Debug, Clone)]
pub struct AudioSession {
    /// A derived identifier: the decimal text of the process id.
    pub id: String,
    /// The session's display name.
    pub display_name: String,
    /// The control-surface volume, in thousandths; at most [`FULL_VOLUME`].
    pub volume: u32,
    /// Whether the session is muted.
    pub muted: bool,
    /// The id of the process that owns the session.
    pub process_id: u32,
}

/// Every session's volume is within the control surface's range.
pub open spec fn session_volumes_ok(s: Seq<SessionControl>) -> bool {
    forall|i: int| 0 <= i < s.len() ==> (#[trigger] s[i]).volume <= FULL_VOLUME
}

/// The index of the first session owned by `process_id`, if any.
pub open spec fn find_session(s: Seq<SessionControl>, process_id: u32) -> Option<int>
    decreases s.len(),
{
    if s.len() == 0 {
        None
    } else if s[0].process_id == process_id {
        Some(0int)
    } else {
        match find_session(s.skip(1), process_id) {
            Some(i) => Some(i + 1),
            None => None,
        }
    }
}

/// A match at `j` preceded by no match is the one `find_session` finds.
pub proof fn lemma_find_session_at(s: Seq<SessionControl>, process_id: u32, j: int)
    requires
        0 <= j < s.len(),
        s[j].process_id == process_id,
        forall|i: int| 0 <= i < j ==> (#[trigger] s[i]).process_id != process_id,
    ensures
        find_session(s, process_id) == Some(j),
    decreases j,
{
    if j == 0 {
    } else {
        assert(s[0].process_id != process_id);
        assert(s.skip(1)[j - 1] == s[j]);
        assert forall|i: int| 0 <= i < j - 1 implies (#[trigger] s.skip(1)[i]).process_id
            != process_id by {
            assert(s.skip(1)[i] == s[i + 1]);
        }
        lemma_find_session_at(s.skip(1), process_id, j - 1);
    }
}

/// No match anywhere means `find_session` finds none.
pub proof fn lemma_find_session_absent(s: Seq<SessionControl>, process_id: u32)
    requires
        forall|i: int| 0 <= i < s.len() ==> (#[trigger] s[i]).process_id != process_id,
    ensures
        find_session(s, process_id) == None::<int>,
    decreases s.len(),
{
    if s.len() == 0 {
    } else {
        assert forall|i: int| 0 <= i < s.len() - 1 implies (#[trigger] s.skip(1)[i]).process_id
            != process_id by {
            assert(s.skip(1)[i] == s[i + 1]);
        }
        lemma_find_session_absent(s.skip(1), process_id);
    }
}

impl AudioSession {
    /// Projects one provider session into a descriptor; the derived id is
    /// the decimal text of the process id.
    pub fn new(process_id: u32, display_name: String, volume: u32, muted: bool) -> (s: Self)
        ensures
            s.process_id == process_id,
            s.display_name == display_name,
            s.volume == volume,
            s.muted == muted,
            s.id@ == spec_decimal(process_id as nat),
    {
        AudioSession {
            id: u32_to_decimal(process_id),
            display_name,
            volume,
            muted,
            process_id,
        }
    }
}

/// Projects the provider's current sessions into descriptors, one per
/// session, in order. An empty list of sessions is not an error.
pub fn enumerate_audio_sessions(sessions: &Vec<SessionControl>) -> (r: Vec<AudioSession>)
    ensures
        r@.len() == sessions@.len(),
        forall|i: int| 0 <= i < sessions@.len() ==> {
            let d = #[trigger] r@[i];
            let c = sessions@[i];
            d.process_id == c.process_id && d.display_name == c.display_name && d.volume == c.volume
                && d.muted == c.muted && d.id@ == spec_decimal(c.process_id as nat)
        },
{
    let mut r: Vec<AudioSession> = Vec::new();
    let mut k: usize = 0;
    let n = sessions.len();
    while k < n
        invariant
            n == sessions@.len(),
            0 <= k <= n,
            r@.len() == k,
            forall|i: int| 0 <= i < k ==> {
                let d = #[trigger] r@[i];
                let c = sessions@[i];
                d.process_id == c.process_id && d.display_name == c.display_name && d.volume
                    == c.volume && d.muted == c.muted && d.id@ == spec_decimal(c.process_id as nat)
            },
        decreases n - k,
    {
        let c = &sessions[k];
        r.push(AudioSession::new(c.process_id, c.display_name.clone(), c.volume, c.muted));
        k += 1;
    }
    r
}

/// Writes `volume` to the control surface of the first session owned by
/// `process_id`; every other session is left as it was. When no session
/// matches, nothing changes and the miss is reported.
pub fn set_session_volume(sessions: &mut Vec<SessionControl>, process_id: u32, volume: u32) -> (r:
    Result<(), BoostError>)
    requires
        volume <= FULL_VOLUME,
    ensures
        match find_session(old(sessions)@, process_id) {
            Some(j) => r == Ok::<(), BoostError>(()) && final(sessions)@ == old(sessions)@.update(
                j,
                (SessionControl { volume, ..old(sessions)@[j] }),
            ),
            None => r == Err::<(), BoostError>(BoostError::SessionNotFound(process_id))
                && final(sessions)@ == old(sessions)@,
        },
{
    let n = sessions.len();
    let mut k: usize = 0;
    while k < n
        invariant
            n == sessions@.len(),
            0 <= k <= n,
            sessions@ == old(sessions)@,
            forall|i: int| 0 <= i < k ==> (#[trigger] sessions@[i]).process_id != process_id,
            volume <= FULL_VOLUME,
        decreases n - k,
    {
        if sessions[k].process_id == process_id {
            proof {
                lemma_find_session_at(sessions@, process_id, k as int);
            }
            let elem = &mut sessions[k];
            elem.volume = volume;
            return Ok(());
        }
        k += 1;
    }
    proof {
        lemma_find_session_absent(sessions@, process_id);
    }
    Err(BoostError::SessionNotFound(process_id))
}

/// Flips the mute flag of the first session owned by `process_id`; every
/// other session is left as it was. When no session matches, nothing
/// changes and the miss is reported.
pub fn toggle_session_mute(sessions: &mut Vec<SessionControl>, process_id: u32) -> (r: Result<
    (),
    BoostError,
>)
    ensures
        match find_session(old(sessions)@, process_id) {
            Some(j) => r == Ok::<(), BoostError>(()) && final(sessions)@ == old(sessions)@.update(
                j,
                (SessionControl { muted: !old(sessions)@[j].muted, ..old(sessions)@[j] }),
            ),
            None => r == Err::<(), BoostError>(BoostError::SessionNotFound(process_id))
                && final(sessions)@ == old(sessions)@,
        },
{
    let n = sessions.len();
    let mut k: usize = 0;
    while k < n
        invariant
            n == sessions@.len(),
            0 <= k <= n,
            sessions@ == old(sessions)@,
            forall|i: int| 0 <= i < k ==> (#[trigger] sessions@[i]).process_id != process_id,
        decreases n - k,
    {
        if sessions[k].process_id == process_id {
            proof {
                lemma_find_session_at(sessions@, process_id, k as int);
            }
            let was_muted = sessions[k].muted;
            let elem = &mut sessions[k];
            elem.muted = !was_muted;
            return Ok(());
        }
        k += 1;
    }
    proof {
        lemma_find_session_absent(sessions@, process_id);
    }
    Err(BoostError::SessionNotFound(process_id))
}

} // verus!
