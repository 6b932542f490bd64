use fusion_escrow::{EscrowError, TimelockDelays, Timelocks};

const SEC: u64 = 1_000_000_000;

fn delays(src: [u64; 4], dst: [u64; 3]) -> TimelockDelays {
    TimelockDelays {
        src_withdrawal_delay: src[0],
        src_public_withdrawal_delay: src[1],
        src_cancellation_delay: src[2],
        src_public_cancellation_delay: src[3],
        dst_withdrawal_delay: dst[0],
        dst_public_withdrawal_delay: dst[1],
        dst_cancellation_delay: dst[2],
    }
}

#[test]
fn valid_delays_pass() {
    assert_eq!(delays([0, 300, 600, 900], [0, 120, 240]).validate(), Ok(()));
    assert_eq!(delays([5, 5, 6, 6], [1, 1, 6]).validate(), Ok(()));
}

#[test]
fn invalid_timelocks_cross_chain_rule() {
    // destination cancellation (600) after source cancellation (500)
    let d = delays([0, 300, 500, 900], [0, 120, 600]);
    assert_eq!(d.validate(), Err(EscrowError::InvalidTimelocks));
}

#[test]
fn each_ordering_rule_is_enforced() {
    let bad = [
        delays([301, 300, 600, 900], [0, 120, 240]),
        delays([0, 600, 600, 900], [0, 120, 240]),
        delays([0, 300, 600, 599], [0, 120, 240]),
        delays([0, 300, 600, 900], [121, 120, 240]),
        delays([0, 300, 600, 900], [0, 240, 240]),
        delays([0, 300, 600, 900], [0, 120, 601]),
    ];
    for d in bad.iter() {
        assert_eq!(d.validate(), Err(EscrowError::InvalidTimelocks));
    }
}

#[test]
fn validate_is_deterministic_and_idempotent() {
    let good = delays([0, 300, 600, 900], [0, 120, 240]);
    let bad = delays([0, 300, 500, 900], [0, 120, 600]);
    assert_eq!(good.validate(), good.validate());
    assert_eq!(bad.validate(), bad.validate());
    let copy = good;
    assert_eq!(copy.validate(), good.validate());
}

#[test]
fn source_claim_window_boundaries() {
    let t = Timelocks::new(10 * SEC, delays([10, 20, 30, 40], [0, 1, 2]));
    // private
    assert_eq!(t.assert_src_withdrawal_window(20 * SEC - 1, false), Err(EscrowError::WrongPhase));
    assert_eq!(t.assert_src_withdrawal_window(20 * SEC, false), Ok(()));
    // public
    assert_eq!(t.assert_src_withdrawal_window(29 * SEC, true), Err(EscrowError::WrongPhase));
    assert_eq!(t.assert_src_withdrawal_window(30 * SEC, true), Ok(()));
    // cancellation start closes both
    assert_eq!(t.assert_src_withdrawal_window(40 * SEC - 1, false), Ok(()));
    assert_eq!(t.assert_src_withdrawal_window(40 * SEC, false), Err(EscrowError::WrongPhase));
    assert_eq!(t.assert_src_withdrawal_window(40 * SEC, true), Err(EscrowError::WrongPhase));
}

#[test]
fn source_cancel_window_boundaries() {
    let t = Timelocks::new(0, delays([10, 20, 30, 40], [0, 1, 2]));
    assert_eq!(t.assert_src_cancellation_window(30 * SEC - 1, false), Err(EscrowError::WrongPhase));
    assert_eq!(t.assert_src_cancellation_window(30 * SEC, false), Ok(()));
    assert_eq!(t.assert_src_cancellation_window(39 * SEC, true), Err(EscrowError::WrongPhase));
    assert_eq!(t.assert_src_cancellation_window(40 * SEC, true), Ok(()));
}

#[test]
fn destination_windows() {
    let t = Timelocks::new(5 * SEC, delays([0, 1, 700, 800], [100, 300, 600]));
    assert_eq!(t.assert_dst_withdrawal_window(105 * SEC - 1, false), Err(EscrowError::WrongPhase));
    assert_eq!(t.assert_dst_withdrawal_window(105 * SEC, false), Ok(()));
    assert_eq!(t.assert_dst_withdrawal_window(200 * SEC, true), Err(EscrowError::WrongPhase));
    assert_eq!(t.assert_dst_withdrawal_window(305 * SEC, true), Ok(()));
    assert_eq!(t.assert_dst_withdrawal_window(605 * SEC, false), Err(EscrowError::WrongPhase));
    assert_eq!(t.assert_dst_cancellation_window(605 * SEC - 1), Err(EscrowError::WrongPhase));
    assert_eq!(t.assert_dst_cancellation_window(605 * SEC), Ok(()));
}

#[test]
fn largest_delays_do_not_overflow() {
    let t = Timelocks::new(u64::MAX, delays([u64::MAX; 4], [u64::MAX; 3]));
    assert_eq!(t.assert_src_withdrawal_window(u64::MAX, false), Err(EscrowError::WrongPhase));
    assert_eq!(t.assert_dst_cancellation_window(u64::MAX), Err(EscrowError::WrongPhase));
}
