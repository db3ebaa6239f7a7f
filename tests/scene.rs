use raytracer::{nearest_hit, pick_root, HittableList, Root};

#[test]
fn new_list_is_empty() {
    let list: HittableList<u8> = HittableList::new();
    assert!(list.objects().is_empty());
}

#[test]
fn add_keeps_insertion_order_and_duplicates() {
    let mut list = HittableList::new();
    list.add("far");
    list.add("near");
    list.add("far");
    assert_eq!(list.objects(), &["far", "near", "far"]);
}

#[test]
fn clear_removes_every_object() {
    let mut list = HittableList::new();
    list.add(1);
    list.add(2);
    list.clear();
    assert!(list.objects().is_empty());
    list.add(3);
    assert_eq!(list.objects(), &[3]);
}

#[test]
fn nearest_of_empty_scene_is_none() {
    assert_eq!(nearest_hit(&[]), None);
}

#[test]
fn nearest_when_every_member_misses_is_none() {
    assert_eq!(nearest_hit(&[None, None, None]), None);
}

#[test]
fn nearest_is_the_globally_closest_hit() {
    assert_eq!(nearest_hit(&[Some(9), None, Some(4), Some(7)]), Some(2));
    assert_eq!(nearest_hit(&[Some(2), Some(9), Some(4)]), Some(0));
}

#[test]
fn nearest_among_equal_hits_is_the_first() {
    assert_eq!(nearest_hit(&[Some(5), None, Some(3), Some(3)]), Some(2));
}

#[test]
fn closer_member_added_after_farther_one_wins() {
    let mut hits = vec![Some(10u32)];
    assert_eq!(nearest_hit(&hits), Some(0));
    hits.push(Some(6));
    assert_eq!(nearest_hit(&hits), Some(1));
    hits.push(Some(8));
    assert_eq!(nearest_hit(&hits), Some(1));
}

#[test]
fn nearest_with_hit_distances_as_keys() {
    // Hit distances in f32 keyed by their bit patterns, which order as the
    // values do for positive numbers.
    let ts = [2.5f32, 0.75, 1.0];
    let keys: Vec<Option<u32>> = ts.iter().map(|t| Some(t.to_bits())).collect();
    assert_eq!(nearest_hit(&keys), Some(1));
}

#[test]
fn near_root_is_preferred() {
    assert_eq!(pick_root(true, true), Some(Root::Near));
    assert_eq!(pick_root(true, false), Some(Root::Near));
}

#[test]
fn far_root_is_taken_when_near_is_out_of_range() {
    assert_eq!(pick_root(false, true), Some(Root::Far));
}

#[test]
fn no_root_in_range_is_no_hit() {
    assert_eq!(pick_root(false, false), None);
}
