use vstd::prelude::*;

use crate::error::EscrowError;

verus! {

/// Nanoseconds in one second: delays are in seconds, timestamps in nanoseconds.
pub const NANOS_IN_SEC: u64 = 1_000_000_000;

/// Delays, in seconds after an escrow's creation, at which each phase begins.
#[derive(Clone, Copy, Debug, PartialEq, Eq, Structural)]
pub struct TimelockDelays {
    pub src_withdrawal_delay: u64,
    pub src_public_withdrawal_delay: u64,
    pub src_cancellation_delay: u64,
    pub src_public_cancellation_delay: u64,
    pub dst_withdrawal_delay: u64,
    pub dst_public_withdrawal_delay: u64,
    pub dst_cancellation_delay: u64,
}

/// The delays anchored at the escrow's creation time (in nanoseconds).
#[derive(Clone, Copy, Debug, PartialEq, Eq, Structural)]
pub struct Timelocks {
    pub created_at: u64,
    pub delays: TimelockDelays,
}

/// The instant, in nanoseconds, that lies `delay` seconds after `created_at`.
pub open spec fn phase_start(created_at: u64, delay: u64) -> int {
    created_at as int + delay as int * NANOS_IN_SEC as int
}

/// Computes `phase_start` without overflow: the result fits in 95 bits.
fn start_time(created_at: u64, delay: u64) -> (r: u128)
    ensures
        r as int == phase_start(created_at, delay),
{
    assert(delay as int * NANOS_IN_SEC as int <= u64::MAX as int * 1_000_000_000) by (nonlinear_arith)
        requires
            delay as int <= u64::MAX as int,
            NANOS_IN_SEC as int == 1_000_000_000,
    ;
    created_at as u128 + (delay as u128) * (NANOS_IN_SEC as u128)
}

impl TimelockDelays {
    /// The ordering rules: private before public, withdrawal before cancellation
    /// on each side, and the destination refund window opening no later than
    /// the source one.
    pub open spec fn is_valid(self) -> bool {
        &&& self.src_withdrawal_delay <= self.src_public_withdrawal_delay
        &&& self.src_public_withdrawal_delay < self.src_cancellation_delay
        &&& self.src_cancellation_delay <= self.src_public_cancellation_delay
        &&& self.dst_withdrawal_delay <= self.dst_public_withdrawal_delay
        &&& self.dst_public_withdrawal_delay < self.dst_cancellation_delay
        &&& self.dst_cancellation_delay <= self.src_cancellation_delay
    }

    /// What validation answers for these delays.
    pub open spec fn validation(self) -> Result<(), EscrowError> {
        if self.is_valid() {
            Ok(())
        } else {
            Err(EscrowError::InvalidTimelocks)
        }
    }

    /// Checks the ordering rules; fails `InvalidTimelocks` when one is broken.
    pub fn validate(&self) -> (r: Result<(), EscrowError>)
        ensures
            r == self.validation(),
    {
        if self.src_withdrawal_delay > self.src_public_withdrawal_delay {
            return Err(EscrowError::InvalidTimelocks);
        }
        if self.src_public_withdrawal_delay >= self.src_cancellation_delay {
            return Err(EscrowError::InvalidTimelocks);
        }
        if self.src_cancellation_delay > self.src_public_cancellation_delay {
            return Err(EscrowError::InvalidTimelocks);
        }
        if self.dst_withdrawal_delay > self.dst_public_withdrawal_delay {
            return Err(EscrowError::InvalidTimelocks);
        }
        if self.dst_public_withdrawal_delay >= self.dst_cancellation_delay {
            return Err(EscrowError::InvalidTimelocks);
        }
        if self.dst_cancellation_delay > self.src_cancellation_delay {
            return Err(EscrowError::InvalidTimelocks);
        }
        Ok(())
    }
}

/// Validation depends on the delays alone, and asking twice gives the same
/// answer as asking once: equal delays always validate alike, and a
/// successful validation leaves delays that validate again.
pub proof fn lemma_validate_deterministic(a: TimelockDelays, b: TimelockDelays)
    requires
        a == b,
    ensures
        a.validation() == b.validation(),
        a.validation() is Ok ==> a.is_valid(),
        a.is_valid() ==> a.validation() == Ok::<(), EscrowError>(()),
{
}

impl Timelocks {
    pub fn new(created_at: u64, delays: TimelockDelays) -> (r: Self)
        ensures
            r.created_at == created_at,
            r.delays == delays,
    {
        Timelocks { created_at, delays }
    }

    /// Source claim: from the (public) withdrawal start until cancellation opens.
    pub open spec fn src_claim_open(self, now: u64, is_public: bool) -> bool {
        let start = if is_public {
            self.delays.src_public_withdrawal_delay
        } else {
            self.delays.src_withdrawal_delay
        };
        &&& phase_start(self.created_at, start) <= now
        &&& now < phase_start(self.created_at, self.delays.src_cancellation_delay)
    }

    /// Destination claim: from the (public) withdrawal start until cancellation opens.
    pub open spec fn dst_claim_open(self, now: u64, is_public: bool) -> bool {
        let start = if is_public {
            self.delays.dst_public_withdrawal_delay
        } else {
            self.delays.dst_withdrawal_delay
        };
        &&& phase_start(self.created_at, start) <= now
        &&& now < phase_start(self.created_at, self.delays.dst_cancellation_delay)
    }

    /// Source cancel: the taker from the cancellation start, anyone from the
    /// public cancellation start.
    pub open spec fn src_cancel_open(self, now: u64, is_public: bool) -> bool {
        let start = if is_public {
            self.delays.src_public_cancellation_delay
        } else {
            self.delays.src_cancellation_delay
        };
        phase_start(self.created_at, start) <= now
    }

    /// Destination cancel: anyone from the cancellation start.
    pub open spec fn dst_cancel_open(self, now: u64) -> bool {
        phase_start(self.created_at, self.delays.dst_cancellation_delay) <= now
    }

    pub open spec fn gate(open: bool) -> Result<(), EscrowError> {
        if open {
            Ok(())
        } else {
            Err(EscrowError::WrongPhase)
        }
    }

    /// Admits a claim on the destination side at time `now`, else `WrongPhase`.
    pub fn assert_dst_withdrawal_window(&self, now: u64, is_public_caller: bool) -> (r: Result<
        (),
        EscrowError,
    >)
        ensures
            r == Self::gate(self.dst_claim_open(now, is_public_caller)),
    {
        let start = if is_public_caller {
            start_time(self.created_at, self.delays.dst_public_withdrawal_delay)
        } else {
            start_time(self.created_at, self.delays.dst_withdrawal_delay)
        };
        if (now as u128) < start {
            return Err(EscrowError::WrongPhase);
        }
        let cancellation_start = start_time(self.created_at, self.delays.dst_cancellation_delay);
        if (now as u128) >= cancellation_start {
            return Err(EscrowError::WrongPhase);
        }
        Ok(())
    }

    /// Admits a claim on the source side at time `now`, else `WrongPhase`.
    pub fn assert_src_withdrawal_window(&self, now: u64, is_public_caller: bool) -> (r: Result<
        (),
        EscrowError,
    >)
        ensures
            r == Self::gate(self.src_claim_open(now, is_public_caller)),
    {
        let start = if is_public_caller {
            start_time(self.created_at, self.delays.src_public_withdrawal_delay)
        } else {
            start_time(self.created_at, self.delays.src_withdrawal_delay)
        };
        if (now as u128) < start {
            return Err(EscrowError::WrongPhase);
        }
        let cancellation_start = start_time(self.created_at, self.delays.src_cancellation_delay);
        if (now as u128) >= cancellation_start {
            return Err(EscrowError::WrongPhase);
        }
        Ok(())
    }

    /// Admits a refund on the destination side at time `now`, else `WrongPhase`.
    pub fn assert_dst_cancellation_window(&self, now: u64) -> (r: Result<(), EscrowError>)
        ensures
            r == Self::gate(self.dst_cancel_open(now)),
    {
        let cancellation_start = start_time(self.created_at, self.delays.dst_cancellation_delay);
        if (now as u128) < cancellation_start {
            return Err(EscrowError::WrongPhase);
        }
        Ok(())
    }

    /// Admits a refund on the source side at time `now`, else `WrongPhase`.
    pub fn assert_src_cancellation_window(&self, now: u64, is_public_caller: bool) -> (r: Result<
        (),
        EscrowError,
    >)
        ensures
            r == Self::gate(self.src_cancel_open(now, is_public_caller)),
    {
        let start = if is_public_caller {
            start_time(self.created_at, self.delays.src_public_cancellation_delay)
        } else {
            start_time(self.created_at, self.delays.src_cancellation_delay)
        };
        if (now as u128) < start {
            return Err(EscrowError::WrongPhase);
        }
        Ok(())
    }
}

} // verus!
