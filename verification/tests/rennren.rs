use cteepbd::fixed::floor_div;
use cteepbd::rennren::RenNren;

#[test]
fn total_is_the_sum_of_both_parts() {
    assert_eq!(2500, RenNren::new(500, 2000).tot());
    assert_eq!(-100, RenNren::new(-300, 200).tot());
}

#[test]
fn renewable_share_is_in_thousandths_rounded_down() {
    assert_eq!(200, RenNren::new(500, 2000).rer());
    assert_eq!(1000, RenNren::new(1000, 0).rer());
    assert_eq!(0, RenNren::new(0, 1100).rer());
    assert_eq!(333, RenNren::new(1, 2).rer());
    assert_eq!(-500, RenNren::new(-1, 3).rer());
    assert_eq!(-334, RenNren::new(-1, 4).rer());
}

#[test]
fn renewable_share_is_zero_without_a_positive_total() {
    assert_eq!(0, RenNren::new(0, 0).rer());
    assert_eq!(0, RenNren::new(5, -5).rer());
    assert_eq!(0, RenNren::new(5, -10).rer());
}

#[test]
fn pairs_add_and_scale_part_by_part() {
    let a = RenNren::new(500, 2000);
    let b = RenNren::new(1000, 0);
    assert_eq!(RenNren::new(1500, 2000), a.plus(b));
    assert_eq!(RenNren::new(1500, 6000), a.scaled(3));
    assert_eq!(RenNren::new(-500, -2000), a.scaled(-1));
    assert_eq!(RenNren::new(0, 0), a.scaled(0));
}

#[test]
fn floor_division_rounds_towards_minus_infinity() {
    assert_eq!(2, floor_div(7, 3));
    assert_eq!(-3, floor_div(-7, 3));
    assert_eq!(-2, floor_div(-6, 3));
    assert_eq!(0, floor_div(0, 3));
    assert_eq!(-1, floor_div(-1, 3));
}
