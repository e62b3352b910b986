use grapher3d::intersections::{
    endpoint_grid_key, pack_endpoint, segment_grid_key, triangle_segment, unpack_endpoint,
    EdgeCrossing, IntersectionCache, PackedEndpoint, PackedSegment, PairIntersections,
    MAX_INTERSECTION_SEGMENTS_PER_PAIR, MAX_TOTAL_INTERSECTION_SEGMENTS,
};

#[test]
fn fixed_capacities_and_pair_storage_are_bounded() {
    assert_eq!(MAX_TOTAL_INTERSECTION_SEGMENTS, 1536);
    assert_eq!(core::mem::size_of::<PackedSegment>(), 8);
    assert!(core::mem::size_of::<IntersectionCache>() <= 12_400);
}

#[test]
fn packing_round_trips_cell_triangle_edge_and_fraction() {
    let endpoint = pack_endpoint(371, 1, 2, 40_000);
    assert_eq!(unpack_endpoint(endpoint), (371, 1, 2, 40_000));
    assert_eq!(unpack_endpoint(pack_endpoint(2048 + 5, 3, 6, 0)), (5, 1, 2, 0));
}

#[test]
fn shared_edge_points_get_the_same_grid_key() {
    let columns = 17;
    // Triangle 0's last edge and triangle 1's first edge are the same diagonal.
    let upper = pack_endpoint(0, 0, 2, 65535);
    let lower = pack_endpoint(0, 1, 0, 0);
    assert_eq!(endpoint_grid_key(upper, columns), endpoint_grid_key(lower, columns));
    assert_eq!(endpoint_grid_key(pack_endpoint(17, 0, 0, 0), columns), (65535, 65535));
    let segment = PackedSegment { first: pack_endpoint(0, 0, 0, 10), second: pack_endpoint(0, 0, 0, 5) };
    let swapped = PackedSegment { first: segment.second, second: segment.first };
    assert_eq!(segment_grid_key(segment, columns), segment_grid_key(swapped, columns));
}

#[test]
fn triangle_segments_follow_edge_crossings() {
    let columns = 17;
    assert_eq!(
        triangle_segment(3, 0, [EdgeCrossing::Apart, EdgeCrossing::Flat, EdgeCrossing::At(7)], columns),
        Some(PackedSegment { first: pack_endpoint(3, 0, 1, 0), second: pack_endpoint(3, 0, 1, 65535) })
    );
    assert_eq!(
        triangle_segment(3, 0, [EdgeCrossing::At(100), EdgeCrossing::Apart, EdgeCrossing::At(200)], columns),
        Some(PackedSegment { first: pack_endpoint(3, 0, 0, 100), second: pack_endpoint(3, 0, 2, 200) })
    );
    // A crossing at a shared vertex is found by two edges but kept once.
    let tangent = triangle_segment(3, 0, [EdgeCrossing::At(65535), EdgeCrossing::At(0), EdgeCrossing::Apart], columns);
    assert_eq!(tangent, Some(PackedSegment { first: pack_endpoint(3, 0, 0, 65535), second: pack_endpoint(3, 0, 0, 65535) }));
    assert_eq!(triangle_segment(3, 1, [EdgeCrossing::Apart; 3], columns), None);
}

#[test]
fn rebuild_order_and_visibility_are_deterministic() {
    let columns = 17;
    let candidates: Vec<PackedSegment> = (0..10)
        .map(|cell| PackedSegment { first: pack_endpoint(cell, 0, 0, 1), second: pack_endpoint(cell, 0, 1, 2) })
        .collect();
    let mut first = IntersectionCache::new();
    first.initialize();
    first.rebuild_pair(0, &candidates, columns);
    let mut second = IntersectionCache::new();
    second.initialize();
    second.rebuild_pair(0, &candidates, columns);
    assert_eq!(first.pair(0).unwrap().segments(), second.pair(0).unwrap().segments());
    assert_eq!(first.pair(0).unwrap().total(), 10);
    assert!(!first.pair(0).unwrap().truncated());
    let visibility = first.visibility_mask();
    first.toggle_visibility(0);
    assert_eq!(first.visibility_mask(), visibility ^ 1);
    assert!(first.pair(0).is_some());
    first.invalidate(1);
    assert!(first.pair(0).is_none());
    assert!(first.pair(1).is_none());
}

#[test]
fn duplicates_are_dropped_and_overflow_is_evenly_sampled() {
    let columns = 33;
    let segment = PackedSegment { first: pack_endpoint(1, 0, 0, 9), second: pack_endpoint(1, 0, 1, 9) };
    let mut pair = PairIntersections::empty();
    pair.push_unique(segment, columns);
    pair.push_unique(PackedSegment { first: segment.second, second: segment.first }, columns);
    assert_eq!(pair.segments().len(), 1);

    let candidates: Vec<PackedSegment> = (0..1000)
        .map(|i| PackedSegment { first: pack_endpoint(i, 0, 0, 3), second: pack_endpoint(i, 0, 0, 3) })
        .collect();
    let mut cache = IntersectionCache::new();
    cache.rebuild_pair(2, &candidates, columns);
    let data = cache.pair(2).unwrap();
    assert!(data.truncated());
    assert_eq!(data.total(), 1000);
    assert_eq!(data.segments().len(), MAX_INTERSECTION_SEGMENTS_PER_PAIR);
    assert_eq!(data.segments()[0], candidates[0]);
    assert_eq!(data.segments()[255], candidates[999]);
    let _ = PackedEndpoint(0);
}

#[test]
fn a_pair_is_available_from_its_rebuild_until_an_invalidation_names_it() {
    let mut cache = IntersectionCache::new();
    assert!(cache.pair(0).is_none());
    let segment = PackedSegment { first: pack_endpoint(0, 0, 0, 10), second: pack_endpoint(0, 0, 1, 5) };
    cache.rebuild_pair(0, &[segment], 17);
    cache.rebuild_pair(3, &[], 17);
    cache.initialize();
    cache.toggle_visibility(0);
    assert!(cache.pair(0).is_some() && cache.pair(3).is_some());
    cache.invalidate(0b000010);
    assert!(cache.pair(0).is_some() && cache.pair(3).is_some());
    cache.invalidate(0b000001);
    assert!(cache.pair(0).is_none() && cache.pair(3).is_some());
    assert!(cache.pair(6).is_none());
    cache.rebuild_pair(0, &[segment, segment], 17);
    let pair = cache.pair(0).unwrap();
    assert_eq!(pair.segments(), &[segment]);
    assert_eq!(pair.total(), 2);
}
