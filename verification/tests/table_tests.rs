use brill::eval::Evaluation;
use brill::eval::MATE;
use brill::h_table::DoubleMoveHistory;
use brill::h_table::HistoryTable;
use brill::h_table::CounterMoveTable;
use brill::h_table::MAX_VALUE;
use brill::lookup::LookUp;
use brill::move_entry::MoveEntry;
use brill::moves::MoveData;
use brill::moves::NO_PROMOTION;
use brill::t_table::Analysis;
use brill::t_table::EntryType;
use brill::t_table::TranspositionTable;
use brill::window::Window;

fn mv(from: u8, to: u8) -> MoveData {
    MoveData::new(from, to, NO_PROMOTION)
}

#[test]
fn eval_mate_encoding() {
    let m1 = Evaluation::new_checkmate(1);
    assert_eq!(m1.raw(), MATE - 1);
    assert!(m1.is_mate());
    let mated = Evaluation::new_checkmate(-1);
    assert_eq!(mated.raw(), -MATE);
    assert!(mated.is_mate());
    let quiet = Evaluation::new(37);
    assert!(!quiet.is_mate());
}

#[test]
fn eval_shift_round_trip_concrete() {
    // a quiet score flips sign and comes back unchanged
    let s = Evaluation::new(250);
    assert_eq!(s.descend().raw(), -250);
    assert_eq!(s.descend().ascend().raw(), 250);
    // the child is mated in 2, so the parent mates in 3
    let child = Evaluation::new_checkmate(-3);
    assert_eq!(child.raw(), -MATE + 2);
    assert_eq!(child.ascend().raw(), MATE - 3);
}

#[test]
fn eval_window_shift() {
    // descending a mate bound stretches the distance by one ply
    let b = Evaluation::new(MATE - 4);
    assert_eq!(b.descend().raw(), -(MATE - 4) - 1);
    assert_eq!(b.descend().ascend().raw(), MATE - 4);
}

#[test]
fn history_cutoff_rewards_and_punishes() {
    let mut h = HistoryTable::new();
    assert_eq!(h.get(0, 1, 20), 0);
    let fails = vec![(2u8, 30u8)];
    h.cutoff(0, 1, 20, &fails, 5);
    assert_eq!(h.get(0, 1, 20), 25); // 5 * 5 bonus on a zero entry
    assert_eq!(h.get(0, 2, 30), -25);
}

#[test]
fn history_cutoff_converges_to_max() {
    let mut h = HistoryTable::new();
    let fails = vec![(2u8, 30u8)];
    for _ in 0..2000 {
        h.cutoff(1, 3, 9, &fails, 20);
        let v = h.get(1, 3, 9);
        assert!(-MAX_VALUE as i16 <= v as i16 && v as i16 <= MAX_VALUE as i16);
        let w = h.get(1, 2, 30);
        assert!(-MAX_VALUE as i16 <= w as i16 && w as i16 <= MAX_VALUE as i16);
    }
    // the rewarded slot saturates near +MAX, the punished one near -MAX
    assert!(h.get(1, 3, 9) >= 500);
    assert!(h.get(1, 2, 30) <= -500);
}

#[test]
fn history_cutoff_skips_deep_updates() {
    let mut h = HistoryTable::new();
    h.cutoff(0, 0, 0, &Vec::new(), 21);
    assert_eq!(h.get(0, 0, 0), 0);
}

#[test]
fn counter_move_table_keeps_latest() {
    let mut cm = CounterMoveTable::new();
    assert_eq!(cm.get(0, 1, 20), None);
    cm.cutoff(0, 1, 20, mv(8, 20), 4);
    assert_eq!(cm.get(0, 1, 20), Some(mv(8, 20)));
    cm.cutoff(0, 1, 20, mv(9, 20), 4);
    assert_eq!(cm.get(0, 1, 20), Some(mv(9, 20)));
}

#[test]
fn double_move_history_range() {
    let mut cmh = DoubleMoveHistory::new();
    let fails = vec![(0u8, 16u8), (1u8, 17u8)];
    for _ in 0..500 {
        cmh.cutoff(1, 2, 33, 4, 44, &fails, 12);
    }
    let v = cmh.get(1, 2, 33, 4, 44);
    assert!(v as i32 <= MAX_VALUE && v as i32 >= -MAX_VALUE);
    assert!(v > 0);
    assert!(cmh.get(1, 2, 33, 0, 16) < 0);
}

#[test]
fn tt_store_probe_round_trip() {
    let mut tt = TranspositionTable::new(1024);
    let e = Analysis::new(7, EntryType::Exact, Evaluation::new(123), mv(12, 28));
    tt.set(0xdead_beef_1234_5678, e);
    let hit = tt.get(0xdead_beef_1234_5678).expect("stored entry must come back");
    assert_eq!(hit.depth(), 7);
    assert_eq!(hit.entry_type(), EntryType::Exact);
    assert_eq!(hit.score().raw(), 123);
    assert_eq!(hit.table_move(), mv(12, 28));
}

#[test]
fn tt_miss_on_other_hash() {
    let mut tt = TranspositionTable::new(1024);
    let e = Analysis::new(3, EntryType::LowerBound, Evaluation::new(-50), mv(0, 1));
    tt.set(42, e);
    // a different hash mapping to another slot misses
    assert!(tt.get(43).is_none());
    // a different hash mapping to the same slot fails the checksum
    assert!(tt.get(42 + 1024).is_none());
}

#[test]
fn tt_replacement_prefers_depth() {
    let mut tt = TranspositionTable::new(64);
    let deep = Analysis::new(20, EntryType::Exact, Evaluation::new(5), mv(0, 1));
    tt.set(7, deep);
    // a very shallow upper bound does not oust a deep exact entry
    let shallow = Analysis::new(1, EntryType::UpperBound, Evaluation::new(9), mv(1, 2));
    tt.set(7, shallow);
    let hit = tt.get(7).unwrap();
    assert_eq!(hit.depth(), 20);
}

#[test]
fn tt_clean_empties_table() {
    let mut tt = TranspositionTable::new(64);
    tt.set(9, Analysis::new(2, EntryType::Exact, Evaluation::new(1), mv(2, 3)));
    tt.clean();
    assert!(tt.get(9).is_none());
}

#[test]
fn tt_fuzz_hits_match_some_store() {
    // pseudo-random stores; every probe hit must be bit-identical to a
    // store made under the same hash
    let mut tt = TranspositionTable::new(256);
    let mut log: Vec<(u64, i32, u8)> = Vec::new();
    let mut x: u64 = 0x243f_6a88_85a3_08d3;
    for i in 0..2000u64 {
        x = x.wrapping_mul(6364136223846793005).wrapping_add(1442695040888963407);
        let h = x;
        let score = (x >> 17) as i32 % 1000;
        let depth = (x >> 40) as u32 % 32;
        let from = (x % 64) as u8;
        let to = ((x >> 6) % 64) as u8;
        let e = Analysis::new(depth, EntryType::LowerBound, Evaluation::new(score), MoveData::new(from, to, NO_PROMOTION));
        tt.set(h, e);
        log.push((h, score, depth as u8));
        let probe_hash = if i % 3 == 0 { h } else { x.rotate_left(13) };
        if let Some(hit) = tt.get(probe_hash) {
            let found = log.iter().any(|&(lh, ls, ld)| {
                lh == probe_hash && ls == hit.score().raw() && ld as u32 == hit.depth()
            });
            assert!(found, "probe returned an entry never stored under that hash");
        }
    }
}

#[test]
fn move_entry_rejects_duplicates() {
    let mut e = MoveEntry::new();
    e.push(mv(1, 2));
    e.push(mv(1, 2));
    assert_eq!(e.len(), 1);
    e.push(mv(3, 4));
    assert_eq!(e.len(), 2);
    e.push(mv(5, 6));
    assert_eq!(e.len(), 2);
    assert_eq!(e.get(0), Some(mv(5, 6)));
}

#[test]
fn lookup_clamps_indices() {
    let t = LookUp::new(vec![vec![1u32, 2], vec![3, 4]]);
    assert_eq!(t.get(0, 0), 1);
    assert_eq!(t.get(1, 1), 4);
    assert_eq!(t.get(9, 0), 3);
    assert_eq!(t.get(0, 9), 2);
    assert_eq!(t.get(9, 9), 4);
}

#[test]
fn window_stays_proper() {
    let mut w = Window::new(25, 3, 2, 5);
    w.set(Evaluation::new(40));
    let (a, b) = w.get();
    assert!(a.raw() < b.raw());
    assert_eq!(a.raw(), 15);
    assert_eq!(b.raw(), 65);
    w.fail_low();
    let (a2, b2) = w.get();
    assert!(a2.raw() < a.raw());
    assert_eq!(b2.raw(), 65);
}
