//! Bounded polling for the block at a target height.
//!
//! The source is asked for the block at most a fixed number of times, with a
//! fixed pause after each failure but the last. A height is never passed
//! over: when every attempt has failed the source gives up.

use vstd::prelude::*;

verus! {

/// How often the block at one height is asked for.
pub const MAX_ATTEMPTS: u32 = 10;

/// The pause after a failed attempt, in seconds.
pub const RETRY_DELAY_SECONDS: u64 = 2;

/// What to do next to obtain the block at the target height.
#[derive(Clone, Copy, Debug, PartialEq, Eq, Structural)]
pub enum Poll {
    /// Ask for the block at this height.
    Fetch { height: u64 },
    /// Pause for this many seconds, then ask again.
    Backoff { seconds: u64 },
    /// Every attempt failed.
    Exhausted,
}

/// The height being sought and the attempts made for it.
#[derive(Clone, Copy, Debug, PartialEq, Eq, Structural)]
pub struct HeaderSource {
    pub target: u64,
    pub attempts: u32,
}

impl HeaderSource {
    /// A source that seeks `target` and has not asked yet.
    pub fn new(target: u64) -> (out: HeaderSource)
        ensures
            out == (HeaderSource { target, attempts: 0 }),
    {
        HeaderSource { target, attempts: 0 }
    }

    /// The state and the step after asking once more, or after giving up
    /// where no attempt is left.
    pub open spec fn spec_ask(self) -> (HeaderSource, Poll) {
        if self.attempts < MAX_ATTEMPTS {
            (
                HeaderSource { target: self.target, attempts: (self.attempts + 1) as u32 },
                Poll::Fetch { height: self.target },
            )
        } else {
            (self, Poll::Exhausted)
        }
    }

    /// Asks for the block once more, if an attempt is left.
    pub fn ask(self) -> (out: (HeaderSource, Poll))
        ensures
            out == self.spec_ask(),
    {
        if self.attempts < MAX_ATTEMPTS {
            (
                HeaderSource { target: self.target, attempts: self.attempts + 1 },
                Poll::Fetch { height: self.target },
            )
        } else {
            (self, Poll::Exhausted)
        }
    }

    /// The step after a failed attempt: a pause while attempts are left,
    /// else the end.
    pub open spec fn spec_failed(self) -> Poll {
        if self.attempts < MAX_ATTEMPTS {
            Poll::Backoff { seconds: RETRY_DELAY_SECONDS }
        } else {
            Poll::Exhausted
        }
    }

    /// Takes note that the last attempt failed.
    #[verifier::when_used_as_spec(spec_failed)]
    pub fn failed(self) -> (out: Poll)
        ensures
            out == self.spec_failed(),
    {
        if self.attempts < MAX_ATTEMPTS {
            Poll::Backoff { seconds: RETRY_DELAY_SECONDS }
        } else {
            Poll::Exhausted
        }
    }

    /// The height whose signed header and validator set are to be fetched
    /// once the block was obtained: the target, not whatever height the
    /// block announces.
    pub open spec fn spec_found(self) -> u64 {
        self.target
    }

    /// The height to fetch the signed header and the validator set of.
    #[verifier::when_used_as_spec(spec_found)]
    pub fn found(self) -> (out: u64)
        ensures
            out == self.spec_found(),
    {
        self.target
    }

    /// The source for the height after the target; none where the target is
    /// the last height there is.
    pub open spec fn spec_advance(self) -> Option<HeaderSource> {
        if self.target < u64::MAX {
            Some(HeaderSource { target: (self.target + 1) as u64, attempts: 0 })
        } else {
            None
        }
    }

    /// Moves on to the next height.
    #[verifier::when_used_as_spec(spec_advance)]
    pub fn advance(self) -> (out: Option<HeaderSource>)
        ensures
            out == self.spec_advance(),
    {
        if self.target < u64::MAX {
            Some(HeaderSource { target: self.target + 1, attempts: 0 })
        } else {
            None
        }
    }
}

} // verus!
