use vstd::prelude::*;

use vstd::arithmetic::div_mod::{lemma_add_mod_noop, lemma_mod_sub_multiples_vanish, lemma_small_mod};

use crate::chat::{sender_of, sender_spec};
use crate::outcome::{Outcome, SessionError};

verus! {

/// `a + b`, held at the largest machine word.
pub open spec fn sat_add(a: nat, b: nat, max: nat) -> nat {
    if a + b > max {
        max
    } else {
        a + b
    }
}

/// Where a chat session stands.
#[derive(Clone, Copy, Debug, PartialEq, Eq, Structural)]
pub enum ChatPhase {
    /// Sending and waiting for its own echoes.
    Active,
    /// Its own echoes reached the target count.
    Completed,
    /// The hard time budget ran out first.
    TimedOut,
    /// It failed; the error says how.
    Failed(SessionError),
}

/// What a successful chat session reports.
#[derive(Clone, Copy, Debug, PartialEq, Eq, Structural)]
pub struct ChatRecord {
    /// Sum of the round-trip times of its messages, in milliseconds.
    pub elapsed_ms: usize,
    /// Echoes of its own messages that it received.
    pub matched: usize,
}

/// One simulated chat client: its ordinal, the number of its own echoes it
/// waits for, and its counters.
#[derive(Clone, Copy, Debug)]
pub struct ChatSession {
    /// 1-based ordinal, also the correlation key in its frames.
    pub index: usize,
    /// Number of own echoes that completes the session.
    pub target: usize,
    /// Well-formed frames received, own and others'.
    pub received: usize,
    /// Frames received that carry this session's ordinal.
    pub matched: usize,
    /// Sum of the round-trip times measured so far, in milliseconds.
    pub elapsed_ms: usize,
    pub phase: ChatPhase,
}

/// The room slot that the `i`-th join or message of session `index` uses,
/// among `n` slots.
pub fn room_slot(index: usize, i: usize, n: usize) -> (r: usize)
    requires
        n > 0,
    ensures
        r as int == (index as int + i as int) % (n as int),
{
    let a = index % n;
    let b = i % n;
    proof {
        lemma_add_mod_noop(index as int, i as int, n as int);
    }
    if a >= n - b {
        assert((a + b) % (n as int) == a + b - n) by {
            lemma_mod_sub_multiples_vanish((a + b) as int, n as int);
            lemma_small_mod((a + b - n) as nat, n as nat);
        }
        a - (n - b)
    } else {
        proof {
            lemma_small_mod((a + b) as nat, n as nat);
        }
        a + b
    }
}

/// The numbers of the `count` rooms that session `index` joins, out of
/// `room_count` rooms: consecutive numbers, starting at `index` and wrapping.
pub fn assigned_rooms(index: usize, count: usize, room_count: usize) -> (r: Vec<usize>)
    requires
        room_count > 0 || count == 0,
    ensures
        r@.len() == count,
        forall|i: int|
            0 <= i < count ==> #[trigger] r@[i] as int == (index as int + i) % (room_count as int),
{
    let mut r: Vec<usize> = Vec::new();
    let mut i: usize = 0;
    while i < count
        invariant
            i <= count,
            room_count > 0 || count == 0,
            r@.len() == i,
            forall|j: int|
                0 <= j < i ==> #[trigger] r@[j] as int == (index as int + j) % (room_count as int),
        decreases count - i,
    {
        r.push(room_slot(index, i, room_count));
        i = i + 1;
    }
    r
}

impl ChatSession {
    /// Completion and its count go together.
    pub open spec fn wf(self) -> bool {
        self.phase == ChatPhase::Completed ==> self.matched == self.target
    }

    /// The terminal classification of a session in this state.
    pub open spec fn outcome_spec(self) -> Outcome<ChatRecord> {
        match self.phase {
            ChatPhase::Completed => Outcome::Success(
                ChatRecord { elapsed_ms: self.elapsed_ms, matched: self.matched },
            ),
            ChatPhase::Failed(e) => Outcome::Error(e),
            _ => Outcome::Timeout,
        }
    }

    pub fn new(index: usize, target: usize) -> (r: ChatSession)
        ensures
            r.wf(),
            r.index == index,
            r.target == target,
            r.received == 0,
            r.matched == 0,
            r.elapsed_ms == 0,
            r.phase == ChatPhase::Active,
    {
        ChatSession { index, target, received: 0, matched: 0, elapsed_ms: 0, phase: ChatPhase::Active }
    }

    /// Takes in one inbound frame. While active, a frame that does not decode
    /// fails the session with a decode error; a well-formed one counts as
    /// received, and counts as matched when it carries this session's
    /// ordinal; reaching the target completes the session. Frames that come
    /// after the session ended change nothing.
    pub fn on_frame(&mut self, frame: &[u8])
        requires
            old(self).wf(),
        ensures
            final(self).wf(),
            final(self).index == old(self).index,
            final(self).target == old(self).target,
            final(self).elapsed_ms == old(self).elapsed_ms,
            old(self).phase != ChatPhase::Active ==> *final(self) == *old(self),
            old(self).phase == ChatPhase::Active && sender_spec(frame@) is None ==> (
                final(self).received == old(self).received
                && final(self).matched == old(self).matched
                && final(self).phase == ChatPhase::Failed(SessionError::Decode)),
            old(self).phase == ChatPhase::Active ==> (sender_spec(frame@) matches Some(id) ==> (
                final(self).received == sat_add(old(self).received as nat, 1, usize::MAX as nat)
                && final(self).matched == (if id == old(self).index {
                    sat_add(old(self).matched as nat, 1, usize::MAX as nat)
                } else {
                    old(self).matched as nat
                })
                && final(self).phase == (if id == old(self).index && final(self).matched
                    == old(self).target {
                    ChatPhase::Completed
                } else {
                    ChatPhase::Active
                }))),
    {
        if self.phase != ChatPhase::Active {
            return;
        }
        match sender_of(frame) {
            Err(_) => {
                self.phase = ChatPhase::Failed(SessionError::Decode);
            },
            Ok(id) => {
                self.received = self.received.saturating_add(1);
                if id == self.index {
                    self.matched = self.matched.saturating_add(1);
                    if self.matched == self.target {
                        self.phase = ChatPhase::Completed;
                    }
                }
            },
        }
    }

    /// The hard time budget ran out: an active session times out.
    pub fn on_deadline(&mut self)
        requires
            old(self).wf(),
        ensures
            final(self).wf(),
            old(self).phase == ChatPhase::Active ==> (*final(self) == (ChatSession {
                phase: ChatPhase::TimedOut,
                ..*old(self)
            })),
            old(self).phase != ChatPhase::Active ==> *final(self) == *old(self),
    {
        if self.phase == ChatPhase::Active {
            self.phase = ChatPhase::TimedOut;
        }
    }

    /// A failure on the connection, which overrides any other result.
    pub fn on_failure(&mut self, error: SessionError)
        requires
            old(self).wf(),
        ensures
            final(self).wf(),
            *final(self) == (ChatSession { phase: ChatPhase::Failed(error), ..*old(self) }),
    {
        self.phase = ChatPhase::Failed(error);
    }

    /// Adds the round-trip time of one message.
    pub fn add_latency(&mut self, ms: usize)
        requires
            old(self).wf(),
        ensures
            final(self).wf(),
            *final(self) == (ChatSession {
                elapsed_ms: sat_add(old(self).elapsed_ms as nat, ms as nat, usize::MAX as nat) as usize,
                ..*old(self)
            }),
    {
        self.elapsed_ms = self.elapsed_ms.saturating_add(ms);
    }

    /// Whether the session still waits for the echo of its message number
    /// `i` (counted from 0).
    pub fn awaiting_reply(&self, i: usize) -> (r: bool)
        ensures
            r == (self.phase == ChatPhase::Active && self.matched <= i),
    {
        self.phase == ChatPhase::Active && self.matched <= i
    }

    /// The session's terminal classification.
    pub fn outcome(&self) -> (r: Outcome<ChatRecord>)
        ensures
            r == self.outcome_spec(),
    {
        match self.phase {
            ChatPhase::Completed => Outcome::Success(
                ChatRecord { elapsed_ms: self.elapsed_ms, matched: self.matched },
            ),
            ChatPhase::Failed(e) => Outcome::Error(e),
            _ => Outcome::Timeout,
        }
    }
}

/// A session that has not failed and whose own echoes fall short of the
/// target is classified as a timeout: it cannot succeed, and it cannot end
/// any other way.
pub proof fn lemma_short_of_target_times_out(s: ChatSession)
    requires
        s.wf(),
        s.matched != s.target,
        !(s.phase is Failed),
    ensures
        s.outcome_spec() == Outcome::<ChatRecord>::Timeout,
{
}

} // verus!
