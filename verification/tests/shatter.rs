use totality::shatter::sorted_tri::{find_bins, OId, STId, SortedTri, SortedTriEle};

fn tri(first: u64) -> SortedTri {
    SortedTri::new(STId::from(first), STId::from(first + 1), STId::from(first + 2))
}

#[test]
fn indexing_reads_the_first_id() {
    let t = SortedTri::new(STId::from(4u64), STId::from(8u64), STId::from(9u64));
    assert_eq!(u64::from(*t.index(SortedTriEle::First)), 4);
    assert_eq!(u64::from(*t.index(SortedTriEle::Third)), 4);
    let mut m = t;
    *m.index_mut(SortedTriEle::Second) = STId::from(1u64);
    assert_eq!(u64::from(*m.index(SortedTriEle::First)), 1);
}

#[test]
fn bins_start_where_the_id_changes() {
    let (a, b, c) = (tri(5), tri(5), tri(7));
    let scan = vec![(&a, OId::from(0u64)), (&b, OId::from(1u64)), (&c, OId::from(2u64))];
    let bins = find_bins(1, &scan);
    assert_eq!(bins.len(), 2);
    assert_eq!((bins[0].val, bins[1].val), (5, 7));
    assert_eq!(bins[0].tier, SortedTriEle::Second);
    // Each run's end is recorded one run late, so the ranges come out empty.
    assert_eq!((bins[0].id_range.clone(), bins[1].id_range.clone()), (0..0, 2..2));
    assert_eq!(bins[1].len(), 0);
}

#[test]
fn bins_with_a_change_at_the_second_entry() {
    let (a, b) = (tri(5), tri(7));
    let scan = vec![(&a, OId::from(0u64)), (&b, OId::from(1u64))];
    let bins = find_bins(0, &scan);
    assert_eq!(bins.len(), 2);
    assert_eq!((bins[0].id_range.clone(), bins[1].id_range.clone()), (0..0, 1..2));
    assert_eq!(bins[1].len(), 1);
    assert!(find_bins(2, &[]).is_empty());
}
