//! Tests of the bulk-loaded spatial index.

use bitoids::spatial::{build_index, query_nearest};

fn dist2(p: &(u64, i64, i64), qx: i64, qy: i64) -> i64 {
    (p.1 - qx) * (p.1 - qx) + (p.2 - qy) * (p.2 - qy)
}

#[test]
fn query_orders_by_ascending_distance() {
    // Load order differs from distance order on purpose.
    let points = vec![
        (0u64, 1000i64, 1000i64),
        (1u64, -500i64, 200i64),
        (2u64, 3i64, 4i64),
        (3u64, 700i64, -100i64),
    ];
    let t = build_index(points.clone());
    let r = query_nearest(&t, 0, 0, 4);
    assert_eq!(r.len(), 4);
    assert_eq!(r[0], (2, 3, 4));
    for w in r.windows(2) {
        assert!(dist2(&w[0], 0, 0) <= dist2(&w[1], 0, 0));
    }
}

#[test]
fn query_takes_a_bounded_prefix() {
    let points = vec![
        (0u64, 1000i64, 1000i64),
        (1u64, -500i64, 200i64),
        (2u64, 3i64, 4i64),
        (3u64, 700i64, -100i64),
    ];
    let t = build_index(points);
    let r = query_nearest(&t, 0, 0, 2);
    assert_eq!(r.len(), 2);
    assert_eq!(r[0], (2, 3, 4));
    assert_eq!(r[1], (1, -500, 200));
}

#[test]
fn empty_index_answers_with_empty_sequence() {
    let t = build_index(Vec::new());
    let r = query_nearest(&t, 123, -456, 10);
    assert_eq!(r.len(), 0);
}

#[test]
fn bulk_loading_twice_gives_identical_query_results() {
    // Determinism: the same point set loaded twice answers the same
    // query with the same ordered sequence, ties included.
    let points = vec![
        (0u64, 100i64, 0i64),
        (1u64, -100i64, 0i64),
        (2u64, 0i64, 100i64),
        (3u64, 0i64, -100i64),
        (4u64, 70i64, 70i64),
        (5u64, -70i64, -70i64),
    ];
    let t1 = build_index(points.clone());
    let t2 = build_index(points);
    for (qx, qy) in [(0i64, 0i64), (50, 50), (-200, 300)] {
        let r1 = query_nearest(&t1, qx, qy, 6);
        let r2 = query_nearest(&t2, qx, qy, 6);
        assert_eq!(r1, r2);
    }
}
