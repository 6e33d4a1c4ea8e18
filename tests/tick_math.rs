use yevefi::tick::{MAX_TICK_INDEX, MIN_TICK_INDEX};
use yevefi::tick_math::{
    sqrt_price_from_tick_index, tick_index_from_sqrt_price, MAX_SQRT_PRICE_X64, MIN_SQRT_PRICE_X64,
};

#[test]
fn domain_ends_give_price_bounds() {
    assert_eq!(sqrt_price_from_tick_index(MIN_TICK_INDEX), MIN_SQRT_PRICE_X64);
    assert_eq!(sqrt_price_from_tick_index(MAX_TICK_INDEX), MAX_SQRT_PRICE_X64);
    assert_eq!(sqrt_price_from_tick_index(0), 1u128 << 64);
    assert_eq!(sqrt_price_from_tick_index(1), 18447666387855959851);
    assert_eq!(sqrt_price_from_tick_index(-1), 18445821805675392311);
    assert_eq!(sqrt_price_from_tick_index(64), 18505865242158250042);
}

#[test]
fn price_strictly_increases_over_whole_domain() {
    let mut prev = sqrt_price_from_tick_index(MIN_TICK_INDEX);
    let mut t = MIN_TICK_INDEX + 1;
    while t <= MAX_TICK_INDEX {
        let p = sqrt_price_from_tick_index(t);
        assert!(p > prev, "not increasing at {}", t);
        prev = p;
        t += 1;
    }
}

#[test]
fn tick_round_trips_through_price() {
    let mut t = MIN_TICK_INDEX;
    while t <= MAX_TICK_INDEX {
        assert_eq!(tick_index_from_sqrt_price(&sqrt_price_from_tick_index(t)), t);
        t += 997;
    }
    for t in [MIN_TICK_INDEX, -1, 0, 1, MAX_TICK_INDEX - 1, MAX_TICK_INDEX] {
        let p = sqrt_price_from_tick_index(t);
        assert_eq!(tick_index_from_sqrt_price(&p), t);
        if t < MAX_TICK_INDEX {
            assert_eq!(tick_index_from_sqrt_price(&(sqrt_price_from_tick_index(t + 1) - 1)), t);
        }
    }
}

#[test]
fn current_tick_of_a_price() {
    let q = 1u128 << 64;
    assert!(yevefi::tick_math::is_price_in_tick(0, q));
    assert!(yevefi::tick_math::is_price_in_tick(-1, q));
    assert!(!yevefi::tick_math::is_price_in_tick(1, q));
    assert!(yevefi::tick_math::is_price_in_tick(MIN_TICK_INDEX - 1, MIN_SQRT_PRICE_X64));
    assert!(!yevefi::tick_math::is_price_in_tick(MIN_TICK_INDEX - 1, MIN_SQRT_PRICE_X64 + 1));
    assert!(yevefi::tick_math::is_price_in_tick(MAX_TICK_INDEX, MAX_SQRT_PRICE_X64));
    assert!(!yevefi::tick_math::is_price_in_tick(0, MAX_SQRT_PRICE_X64 + 1));
}
