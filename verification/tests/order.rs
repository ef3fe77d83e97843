use ndn_dashboard_next::order::{stable_order, SortKey};

fn key(rank: u64, first: &str, second: &str) -> SortKey {
    SortKey {
        rank,
        first: first.into(),
        second: second.into(),
    }
}

#[test]
fn equal_keys_keep_their_order() {
    let keys = vec![
        key(1, "b", ""),
        key(0, "z", ""),
        key(1, "a", "y"),
        key(1, "a", "x"),
        key(1, "a", "y"),
    ];
    assert_eq!(stable_order(&keys), vec![1, 3, 2, 4, 0]);
    assert!(stable_order(&Vec::new()).is_empty());
}
