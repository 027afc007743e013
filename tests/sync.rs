use ord_wallet::sync::{IndexSyncGate, SyncAction, SYNC_ATTEMPTS};

fn run(gate: &mut IndexSyncGate, heights: &[u64]) -> (SyncAction, u32) {
    let mut polls = 0;
    for &h in heights {
        polls += 1;
        let action = gate.record_poll(h);
        if action != SyncAction::Retry {
            return (action, polls);
        }
    }
    (SyncAction::Retry, polls)
}

#[test]
fn target_is_one_past_block_count() {
    let gate = IndexSyncGate::new(100, false);
    assert_eq!(gate.target, 101);
    assert_eq!(gate.attempts, 0);
    assert!(!gate.skip);
    assert!(IndexSyncGate::new(100, true).skip);
}

#[test]
fn succeeds_when_index_catches_up_on_last_attempt() {
    let h = 101;
    let mut gate = IndexSyncGate::new(h - 1, false);
    let mut heights = vec![h - 1; 19];
    heights.push(h);
    assert_eq!(run(&mut gate, &heights), (SyncAction::Done, 20));
    assert_eq!(gate.attempts, 20);
}

#[test]
fn times_out_after_exactly_twenty_attempts() {
    let h = 101;
    let mut gate = IndexSyncGate::new(h - 1, false);
    let heights = vec![h - 1; 50];
    assert_eq!(run(&mut gate, &heights), (SyncAction::TimedOut, SYNC_ATTEMPTS));
    assert_eq!(gate.attempts, 20);
}

#[test]
fn succeeds_at_once_when_index_is_ahead() {
    let mut gate = IndexSyncGate::new(10, false);
    assert_eq!(gate.record_poll(12), SyncAction::Done);
    assert_eq!(gate.attempts, 1);
}
