use bint::{Bint, BintCell, DrainableBintCell};

#[test]
fn drain_down() {
    let mut b = DrainableBintCell::new(8, 8);

    assert_eq!(7, b.down().unwrap());
    assert_eq!(6, b.down().unwrap());
    assert_eq!(5, b.down().unwrap());
    assert_eq!(4, b.down().unwrap());
    assert_eq!(3, b.down().unwrap());
    assert_eq!(2, b.down().unwrap());
    assert_eq!(1, b.down().unwrap());
    assert_eq!(0, b.down().unwrap());
    assert!(b.up().is_none());
}

#[test]
fn drain_drain() {
    let mut b = DrainableBintCell::new(8, 8);

    assert_eq!(7, b.drain().unwrap());
    assert_eq!(6, b.drain().unwrap());
    assert_eq!(5, b.drain().unwrap());
    assert_eq!(4, b.drain().unwrap());
    assert_eq!(3, b.drain().unwrap());
    assert_eq!(2, b.drain().unwrap());
    assert_eq!(1, b.drain().unwrap());
    assert_eq!(0, b.drain().unwrap());
    assert!(b.drain().is_none());
}

#[test]
fn drain_up() {
    let mut b = DrainableBintCell::new(8, 8);

    assert_eq!(1, b.up().unwrap());
    assert_eq!(2, b.up().unwrap());
    assert_eq!(3, b.up().unwrap());
    assert_eq!(4, b.up().unwrap());
    assert_eq!(5, b.up().unwrap());
    assert_eq!(6, b.up().unwrap());
    assert_eq!(7, b.up().unwrap());
    assert_eq!(0, b.up().unwrap());
    assert!(b.up().is_none());
}

#[test]
fn drain_four_ups_then_exhausted() {
    let mut b = DrainableBintCell::new(4, 4);

    assert_eq!(Some(1), b.up());
    assert_eq!(Some(2), b.up());
    assert_eq!(Some(3), b.up());
    assert_eq!(Some(0), b.up());
    assert_eq!(None, b.up());
    assert_eq!(0, b.value());
    assert_eq!(None, b.down());
    assert_eq!(0, b.value());
}

#[test]
fn drain_new_with_value_then_down() {
    let mut b = DrainableBintCell::new_with_value(4, 4, 3);

    assert_eq!(3, b.value());
    assert_eq!(2, b.down().unwrap());
    assert_eq!(1, b.down().unwrap());
    assert_eq!(0, b.down().unwrap());
    assert_eq!(3, b.down().unwrap());
    assert!(b.down().is_none());
}

#[test]
fn drain_new_with_value_clamps() {
    let b = DrainableBintCell::new_with_value(4, 2, 9);
    assert_eq!(0, b.value());
    assert_eq!(2, b.capacity());
    assert_eq!(Bint { value: 0, boundary: 4 }, Bint::from(b));
}

#[test]
fn drain_down_twice_around() {
    let mut b = DrainableBintCell::new(4, 8);

    assert_eq!(3, b.down().unwrap());
    assert_eq!(2, b.down().unwrap());
    assert_eq!(1, b.down().unwrap());
    assert_eq!(0, b.down().unwrap());
    assert_eq!(3, b.down().unwrap());
    assert_eq!(2, b.down().unwrap());
    assert_eq!(1, b.down().unwrap());
    assert_eq!(0, b.down().unwrap());
    assert!(b.down().is_none());
}

#[test]
fn drain_down_x() {
    let mut b = DrainableBintCell::new(4, 4);

    assert_eq!(2, b.down_x(2).unwrap());
    assert_eq!(0, b.down_x(2).unwrap());
    assert!(b.down_x(2).is_none());
}

#[test]
fn drain_up_x() {
    let mut b = DrainableBintCell::new(4, 4);

    assert_eq!(3, b.up_x(3).unwrap());
    assert_eq!(0, b.up_x(1).unwrap());
    assert!(b.up_x(2).is_none());
}

#[test]
fn drain_up_x_keeps_partial_progress() {
    let mut b = DrainableBintCell::new(10, 3);

    assert_eq!(None, b.up_x(5));
    assert_eq!(3, b.value());
    assert_eq!(0, b.capacity());
}

#[test]
fn drain_down_x_keeps_partial_progress() {
    let mut b = DrainableBintCell::new(10, 3);

    assert_eq!(None, b.down_x(5));
    assert_eq!(7, b.value());
    assert_eq!(0, b.capacity());
}

#[test]
fn drain_bulk_of_zero_steps_needs_no_budget() {
    let mut b = DrainableBintCell::new_with_value(10, 0, 4);

    assert_eq!(Some(4), b.up_x(0));
    assert_eq!(Some(4), b.down_x(0));
    assert_eq!(None, b.up_x(1));
    assert_eq!(4, b.value());
}

#[test]
fn drain_bulk_spends_exactly_its_steps() {
    let mut b = DrainableBintCell::new(10, 7);

    assert_eq!(Some(3), b.up_x(3));
    assert_eq!(4, b.capacity());
    assert_eq!(Some(9), b.down_x(4));
    assert_eq!(0, b.capacity());
}

#[test]
fn drain_permits_exactly_its_budget() {
    for budget in [0usize, 1, 2, 5, 40, 300] {
        let mut b = DrainableBintCell::new(7, budget);
        let mut expected = Bint::new(7);
        for call in 0..budget {
            let got = if call % 3 == 0 { b.down() } else { b.up() };
            expected = if call % 3 == 0 {
                expected.down()
            } else {
                expected.up()
            };
            assert_eq!(Some(expected.value), got);
            assert_eq!(budget - call - 1, b.capacity());
        }
        assert_eq!(None, b.up());
        assert_eq!(expected.value, b.value());
        assert_eq!(None, b.down());
        assert_eq!(expected.value, b.value());
        assert_eq!(0, b.capacity());
    }
}

#[test]
fn drain_does_not_move_the_counter() {
    let mut b = DrainableBintCell::new_with_value(8, 2, 5);

    assert_eq!(Some(1), b.drain());
    assert_eq!(5, b.value());
    assert_eq!(Some(6), b.up());
    assert_eq!(None, b.drain());
    assert_eq!(6, b.value());
}

#[test]
fn drain_value_is_not_gated() {
    let b = DrainableBintCell::new_with_value(8, 0, 5);
    assert_eq!(5, b.value());
    assert_eq!(5, b.value());
    assert_eq!(0, b.capacity());
}

#[test]
fn drain_capacity_field_and_reader_agree() {
    let mut b = DrainableBintCell::new(8, 3);
    assert_eq!(3, b.capacity);
    assert_eq!(3, b.capacity());
    assert_eq!(Some(1), b.up());
    assert_eq!(2, b.capacity);
    assert_eq!(2, b.capacity());
}

#[test]
fn drain_zero_boundary_still_spends_budget() {
    let mut b = DrainableBintCell::new(0, 2);
    assert_eq!(Some(0), b.up());
    assert_eq!(Some(0), b.down());
    assert_eq!(None, b.up());
}

#[test]
fn bint_from_drainable() {
    let bint_cell = DrainableBintCell::new_with_value(8, 8, 3);
    let expected = Bint::new_with_value(8, 3);

    assert_eq!(expected, Bint::from(&bint_cell));
    assert_eq!(expected, Bint::from(bint_cell));
}

#[test]
fn cell_from_drainable() {
    let bint_cell = DrainableBintCell::new_with_value(8, 8, 3);
    let expected = BintCell::new_with_value(8, 3);

    assert_eq!(expected, BintCell::from(&bint_cell));
    assert_eq!(expected, BintCell::from(bint_cell));
}

#[test]
fn drainable_equality_counts_the_budget() {
    assert_eq!(DrainableBintCell::new(8, 3), DrainableBintCell::new(8, 3));
    assert_ne!(DrainableBintCell::new(8, 3), DrainableBintCell::new(8, 4));
    assert_ne!(DrainableBintCell::new(8, 3), DrainableBintCell::new(9, 3));
}

#[test]
fn drainable_order_is_by_value_boundary_then_budget() {
    let a = DrainableBintCell::new_with_value(8, 9, 1);
    let b = DrainableBintCell::new_with_value(8, 0, 2);
    assert!(a < b);
    assert!(DrainableBintCell::new(7, 9) < DrainableBintCell::new(8, 0));
    assert!(DrainableBintCell::new(8, 3) < DrainableBintCell::new(8, 4));
    assert!(DrainableBintCell::new(8, 4) >= DrainableBintCell::new(8, 4));
    assert_eq!(Some(a.cmp(&b)), a.partial_cmp(&b));
}
