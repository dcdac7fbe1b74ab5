use ffi_boundary::{flip_things_around, flip_things_around_rust, Tuple};

#[test]
fn flip_swaps_and_shifts() {
    assert_eq!(flip_things_around_rust((5, 10)), (11, 4));
}

#[test]
fn flip_with_zero_in_second_place() {
    assert_eq!(flip_things_around_rust((3, 0)), (1, 2));
}

#[test]
fn flip_wraps_below_zero() {
    assert_eq!(flip_things_around_rust((0, 3)), (4, u32::MAX));
    assert_eq!(flip_things_around_rust((0, 3)), (4, 4_294_967_295));
}

#[test]
fn flip_wraps_above_the_maximum() {
    assert_eq!(flip_things_around_rust((7, u32::MAX)), (0, 6));
}

#[test]
fn flip_wraps_at_both_ends() {
    assert_eq!(flip_things_around_rust((0, u32::MAX)), (0, u32::MAX));
}

#[test]
fn flip_twice_gives_the_pair_back() {
    for pair in [(5, 10), (0, 3), (7, u32::MAX), (0, 0), (u32::MAX, u32::MAX)] {
        assert_eq!(flip_things_around_rust(flip_things_around_rust(pair)), pair);
    }
}

#[test]
fn tuple_keeps_the_order_of_its_fields() {
    let tuple = Tuple::from((5, 10));
    assert_eq!(tuple.x, 5);
    assert_eq!(tuple.y, 10);
    assert_eq!(<(u32, u32)>::from(tuple), (5, 10));
}

#[test]
fn tuple_converts_with_into() {
    let tuple: Tuple = (1, 2).into();
    let pair: (u32, u32) = tuple.into();
    assert_eq!(pair, (1, 2));
}

#[test]
fn flip_on_the_fixed_layout_pair() {
    assert_eq!(flip_things_around(Tuple::from((5, 10))), Tuple { x: 11, y: 4 });
    assert_eq!(flip_things_around(Tuple { x: 0, y: 3 }), Tuple { x: 4, y: u32::MAX });
}
