use simpiwallet::outputs::CommitmentOutput;
use simpiwallet::state::{OutPoint, Utxo, UtxoSet};

fn utxo(amount: u64, tag: u8) -> Utxo {
    Utxo {
        descriptor: CommitmentOutput::Opaque { root: vec![tag; 32] },
        amount,
        outpoint: OutPoint { txid: vec![tag; 32], vout: 0 },
    }
}

fn demo_set() -> UtxoSet {
    UtxoSet(vec![utxo(30, 1), utxo(50, 2), utxo(20, 3)])
}

#[test]
fn first_fit_selection_takes_the_first_covering_prefix() {
    let set = demo_set();
    let (selection, total) = set.select_coins(60).expect("sufficient funds");
    assert_eq!(total, 80);
    assert_eq!(selection.0.len(), 2);
    assert_eq!(selection.0[0].amount, 30);
    assert_eq!(selection.0[1].amount, 50);
}

#[test]
fn selection_reports_insufficiency() {
    let set = demo_set();
    assert!(set.select_coins(101).is_none());
}

#[test]
fn selection_is_deterministic_for_fixed_order() {
    let set = demo_set();
    let (a, ta) = set.select_coins(60).expect("sufficient");
    let (b, tb) = set.select_coins(60).expect("sufficient");
    assert_eq!(ta, tb);
    assert_eq!(a.0.len(), b.0.len());
    for (x, y) in a.0.iter().zip(b.0.iter()) {
        assert_eq!(x.amount, y.amount);
        assert_eq!(x.outpoint.txid, y.outpoint.txid);
    }
}

#[test]
fn zero_target_selects_nothing() {
    let set = demo_set();
    let (selection, total) = set.select_coins(0).expect("trivially sufficient");
    assert_eq!(selection.0.len(), 0);
    assert_eq!(total, 0);
}

#[test]
fn total_amount_sums_everything() {
    let set = demo_set();
    assert_eq!(set.total_amount(), 100);
    assert_eq!(set.checked_total(), Some(100));
    assert_eq!(UtxoSet(vec![]).total_amount(), 0);
}

#[test]
fn checked_total_reports_overflow() {
    let set = UtxoSet(vec![utxo(u64::MAX, 1), utxo(1, 2)]);
    assert!(set.checked_total().is_none());
}
