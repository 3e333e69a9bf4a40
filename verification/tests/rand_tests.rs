use skye_emulator::fastrand::Rand;

#[test]
fn first_draws_from_known_seeds() {
    let mut zero: Rand = Rand::new(0);
    assert_eq!(zero.rand(), 803200320343778274);
    assert_eq!(zero.rand(), 3562916320664466884);
    assert_eq!(zero.rand(), 1097919049211538068);
    let mut one: Rand = Rand::new(1);
    assert_eq!(one.rand(), 1010963531335069244);
    let mut large: Rand = Rand::new(0xDEADBEEF);
    assert_eq!(large.rand(), 10281065270411060057);
    assert_eq!(large.rand(), 15170272867610657104);
}

#[test]
fn equal_seeds_give_equal_sequences() {
    let mut first: Rand = Rand::new(0x1234_5678_9ABC_DEF0);
    let mut second: Rand = Rand::new(0x1234_5678_9ABC_DEF0);
    for _ in 0..1000 {
        assert_eq!(first.rand(), second.rand());
    }
}

#[test]
fn each_draw_is_the_next_state() {
    let mut chained: Rand = Rand::new(42);
    let drawn: u64 = chained.rand();
    assert_eq!(drawn, 8369988816609145748);
    let mut restarted: Rand = Rand::new(drawn);
    assert_eq!(chained.rand(), restarted.rand());
}

#[test]
fn default_generator_draws() {
    let mut first: Rand = Rand::default();
    let drawn: u64 = first.rand();
    let mut again: Rand = Rand::new(drawn);
    assert_eq!(first.rand(), again.rand());
}
