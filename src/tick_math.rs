use vstd::prelude::*;
use crate::fixed_point::{lemma_floor_at_least, q64};
use crate::tick::{MAX_TICK_INDEX, MIN_TICK_INDEX};

verus! {

/// Square-root price at `MIN_TICK_INDEX`, Q64.64.
pub const MIN_SQRT_PRICE_X64: u128 = 4295048016;

/// Square-root price at `MAX_TICK_INDEX`, Q64.64.
pub const MAX_SQRT_PRICE_X64: u128 = 79226673521066979257578248091;

/// Number of binary digits of a tick magnitude that the price formula reads.
pub const TICK_BITS: usize = 19;

/// `2^64 / sqrt(1.0001)^(2^k)`, rounded down: the factor for bit `k` of a
/// tick magnitude.
pub open spec fn tick_factor(k: int) -> int {
    if k == 0 {
        18445821805675392311
    } else if k == 1 {
        18444899583751176498
    } else if k == 2 {
        18443055278223354162
    } else if k == 3 {
        18439367220385604838
    } else if k == 4 {
        18431993317065449817
    } else if k == 5 {
        18417254355718160513
    } else if k == 6 {
        18387811781193591352
    } else if k == 7 {
        18329067761203520168
    } else if k == 8 {
        18212142134806087854
    } else if k == 9 {
        17980523815641551639
    } else if k == 10 {
        17526086738831147013
    } else if k == 11 {
        16651378430235024244
    } else if k == 12 {
        15030750278693429944
    } else if k == 13 {
        12247334978882834399
    } else if k == 14 {
        8131365268884726200
    } else if k == 15 {
        3584323654723342297
    } else if k == 16 {
        696457651847595233
    } else if k == 17 {
        26294789957452057
    } else if k == 18 {
        37481735321082
    } else {
        0
    }
}

fn tick_factor_exec(k: usize) -> (r: u128)
    requires
        k < TICK_BITS,
    ensures
        r == tick_factor(k as int),
        0 < r < q64(),
{
    if k == 0 {
        18445821805675392311
    } else if k == 1 {
        18444899583751176498
    } else if k == 2 {
        18443055278223354162
    } else if k == 3 {
        18439367220385604838
    } else if k == 4 {
        18431993317065449817
    } else if k == 5 {
        18417254355718160513
    } else if k == 6 {
        18387811781193591352
    } else if k == 7 {
        18329067761203520168
    } else if k == 8 {
        18212142134806087854
    } else if k == 9 {
        17980523815641551639
    } else if k == 10 {
        17526086738831147013
    } else if k == 11 {
        16651378430235024244
    } else if k == 12 {
        15030750278693429944
    } else if k == 13 {
        12247334978882834399
    } else if k == 14 {
        8131365268884726200
    } else if k == 15 {
        3584323654723342297
    } else if k == 16 {
        696457651847595233
    } else if k == 17 {
        26294789957452057
    } else if k == 18 {
        37481735321082
    } else {
        0
    }
}

/// Multiplies `r` by the factor of every set bit of `rest` from bit `k` on,
/// shifting right by 64 after each product.
pub open spec fn apply_tick_bits(r: int, rest: int, k: nat) -> int
    decreases 19 - k,
{
    if k >= 19 {
        r
    } else {
        let next = if rest % 2 == 1 {
            r * tick_factor(k as int) / q64()
        } else {
            r
        };
        apply_tick_bits(next, rest / 2, k + 1)
    }
}

/// Lowest value the product can reach after bits `0..k`: every bit set.
pub open spec fn tick_ratio_floor(k: nat) -> int
    decreases k,
{
    if k == 0 {
        q64()
    } else {
        tick_ratio_floor((k - 1) as nat) * tick_factor(k - 1) / q64()
    }
}

/// `2^64 * sqrt(1.0001)^(-magnitude)`: the square-root price of a
/// non-positive tick, Q64.64.
pub open spec fn tick_ratio(magnitude: int) -> int {
    apply_tick_bits(q64(), magnitude, 0)
}

/// The square-root price of a tick, Q64.64: the product of the bit factors
/// for a non-positive tick, and `u128::MAX` divided by the price of the
/// mirrored tick for a positive one.
pub open spec fn sqrt_price_at_tick(tick: int) -> int {
    if tick <= 0 {
        tick_ratio(-tick)
    } else {
        (u128::MAX as int) / tick_ratio(tick)
    }
}

proof fn lemma_floor_step(r: int, lb: int, c: int)
    requires
        lb <= r <= q64(),
        0 <= lb,
        0 < c < q64(),
    ensures
        lb * c / q64() <= r * c / q64() <= q64(),
        lb * c / q64() <= lb,
        r * c <= u128::MAX,
{
    assert(lb * c <= r * c) by (nonlinear_arith)
        requires lb <= r, 0 < c;
    vstd::arithmetic::div_mod::lemma_div_is_ordered(lb * c, r * c, q64());
    assert(r * c <= q64() * q64()) by (nonlinear_arith)
        requires r <= q64(), 0 < c < q64(), 0 <= r;
    vstd::arithmetic::div_mod::lemma_div_is_ordered(r * c, q64() * q64(), q64());
    vstd::arithmetic::div_mod::lemma_div_multiples_vanish(q64(), q64());
    assert(lb * c <= lb * q64()) by (nonlinear_arith)
        requires 0 <= lb, c < q64();
    vstd::arithmetic::div_mod::lemma_div_is_ordered(lb * c, lb * q64(), q64());
    vstd::arithmetic::div_mod::lemma_div_multiples_vanish(lb, q64());
    assert(r * c < q64() * q64()) by (nonlinear_arith)
        requires r <= q64(), 0 < c < q64(), 0 <= r;
}

proof fn lemma_tick_ratio_floor_positive()
    ensures
        tick_ratio_floor(19) > 0,
        tick_ratio_floor(0) == 18446744073709551616,
        tick_ratio_floor(1) == 18445821805675392311,
        tick_ratio_floor(2) == 18443977407934598850,
        tick_ratio_floor(3) == 18440289165698567478,
        tick_ratio_floor(4) == 18432914893692463368,
        tick_ratio_floor(5) == 18418175195415529478,
        tick_ratio_floor(6) == 18388731148799035466,
        tick_ratio_floor(7) == 18329984191681391131,
        tick_ratio_floor(8) == 18213052719148788671,
        tick_ratio_floor(9) == 17981422819357802651,
        tick_ratio_floor(10) == 17526963021261575450,
        tick_ratio_floor(11) == 16652210978343353594,
        tick_ratio_floor(12) == 15031501797419866121,
        tick_ratio_floor(13) == 12247947330323375219,
        tick_ratio_floor(14) == 8131771826984472022,
        tick_ratio_floor(15) == 3584502866425897898,
        tick_ratio_floor(16) == 696492473859659073,
        tick_ratio_floor(17) == 26296104664083085,
        tick_ratio_floor(18) == 37483609360998,
        tick_ratio_floor(19) == 76162531,
{
    assert(tick_ratio_floor(0) == q64());
    assert(tick_ratio_floor(1) == 18445821805675392311);
    assert(tick_ratio_floor(2) == 18443977407934598850);
    assert(tick_ratio_floor(3) == 18440289165698567478);
    assert(tick_ratio_floor(4) == 18432914893692463368);
    assert(tick_ratio_floor(5) == 18418175195415529478);
    assert(tick_ratio_floor(6) == 18388731148799035466);
    assert(tick_ratio_floor(7) == 18329984191681391131);
    assert(tick_ratio_floor(8) == 18213052719148788671);
    assert(tick_ratio_floor(9) == 17981422819357802651);
    assert(tick_ratio_floor(10) == 17526963021261575450);
    assert(tick_ratio_floor(11) == 16652210978343353594);
    assert(tick_ratio_floor(12) == 15031501797419866121);
    assert(tick_ratio_floor(13) == 12247947330323375219);
    assert(tick_ratio_floor(14) == 8131771826984472022);
    assert(tick_ratio_floor(15) == 3584502866425897898);
    assert(tick_ratio_floor(16) == 696492473859659073);
    assert(tick_ratio_floor(17) == 26296104664083085);
    assert(tick_ratio_floor(18) == 37483609360998);
    assert(tick_ratio_floor(19) == 76162531);
}

/// The square-root price of a non-positive tick, from the tick's magnitude.
fn tick_ratio_exec(magnitude: u32) -> (r: u128)
    ensures
        r == tick_ratio(magnitude as int),
        0 < r <= q64(),
{
    let mut ratio: u128 = 0x1_0000_0000_0000_0000;
    let mut rest: u32 = magnitude;
    let mut k: usize = 0;
    proof {
        lemma_tick_ratio_floor_positive();
    }
    while k < TICK_BITS
        invariant
            0 <= k <= 19,
            apply_tick_bits(ratio as int, rest as int, k as nat) == tick_ratio(magnitude as int),
            0 <= tick_ratio_floor(k as nat) <= ratio <= q64(),
            tick_ratio_floor(19) > 0,
        decreases 19 - k,
    {
        let c = tick_factor_exec(k);
        proof {
            lemma_floor_step(ratio as int, tick_ratio_floor(k as nat), c as int);
        }
        if rest % 2 == 1 {
            ratio = ratio * c / 0x1_0000_0000_0000_0000;
        }
        rest = rest / 2;
        k = k + 1;
    }
    ratio
}

/// The square-root price of a tick index, Q64.64.
pub fn sqrt_price_from_tick_index(tick: i32) -> (r: u128)
    requires
        MIN_TICK_INDEX <= tick <= MAX_TICK_INDEX,
    ensures
        r == sqrt_price_at_tick(tick as int),
{
    if tick <= 0 {
        tick_ratio_exec((-tick) as u32)
    } else {
        let ratio = tick_ratio_exec(tick as u32);
        u128::MAX / ratio
    }
}

/// The price formula at the ends of the tick domain gives the bounds of the
/// square-root price.
pub proof fn lemma_sqrt_price_bounds()
    ensures
        sqrt_price_at_tick(MIN_TICK_INDEX as int) == MIN_SQRT_PRICE_X64,
        sqrt_price_at_tick(MAX_TICK_INDEX as int) == MAX_SQRT_PRICE_X64,
{
    assert(apply_tick_bits(18446744073709551616, 443636, 0) == apply_tick_bits(18446744073709551616, 221818, 1));
    assert(apply_tick_bits(18446744073709551616, 221818, 1) == apply_tick_bits(18446744073709551616, 110909, 2));
    assert(apply_tick_bits(18446744073709551616, 110909, 2) == apply_tick_bits(18443055278223354162, 55454, 3));
    assert(apply_tick_bits(18443055278223354162, 55454, 3) == apply_tick_bits(18443055278223354162, 27727, 4));
    assert(apply_tick_bits(18443055278223354162, 27727, 4) == apply_tick_bits(18428307471288117479, 13863, 5));
    assert(apply_tick_bits(18428307471288117479, 13863, 5) == apply_tick_bits(18398847226801858501, 6931, 6));
    assert(apply_tick_bits(18398847226801858501, 6931, 6) == apply_tick_bits(18340067951587015306, 3465, 7));
    assert(apply_tick_bits(18340067951587015306, 3465, 7) == apply_tick_bits(18223072152272561885, 1732, 8));
    assert(apply_tick_bits(18223072152272561885, 1732, 8) == apply_tick_bits(18223072152272561885, 866, 9));
    assert(apply_tick_bits(18223072152272561885, 866, 9) == apply_tick_bits(18223072152272561885, 433, 10));
    assert(apply_tick_bits(18223072152272561885, 433, 10) == apply_tick_bits(17313578044587773368, 216, 11));
    assert(apply_tick_bits(17313578044587773368, 216, 11) == apply_tick_bits(17313578044587773368, 108, 12));
    assert(apply_tick_bits(17313578044587773368, 108, 12) == apply_tick_bits(17313578044587773368, 54, 13));
    assert(apply_tick_bits(17313578044587773368, 54, 13) == apply_tick_bits(17313578044587773368, 27, 14));
    assert(apply_tick_bits(17313578044587773368, 27, 14) == apply_tick_bits(7631863196526440527, 13, 15));
    assert(apply_tick_bits(7631863196526440527, 13, 15) == apply_tick_bits(1482921196045045371, 6, 16));
    assert(apply_tick_bits(1482921196045045371, 6, 16) == apply_tick_bits(1482921196045045371, 3, 17));
    assert(apply_tick_bits(1482921196045045371, 3, 17) == apply_tick_bits(2113820261052536, 1, 18));
    assert(apply_tick_bits(2113820261052536, 1, 18) == apply_tick_bits(4295048016, 0, 19));
    assert(apply_tick_bits(4295048016, 0, 19) == 4295048016);
    assert(tick_ratio(443636) == 4295048016);
}

/// The tick whose price bracket holds `sqrt_price_x64`: the highest tick
/// whose square-root price does not exceed it.
pub fn tick_index_from_sqrt_price(sqrt_price_x64: &u128) -> (r: i32)
    requires
        MIN_SQRT_PRICE_X64 <= *sqrt_price_x64 <= MAX_SQRT_PRICE_X64,
    ensures
        MIN_TICK_INDEX <= r <= MAX_TICK_INDEX,
        sqrt_price_at_tick(r as int) <= *sqrt_price_x64,
        r == MAX_TICK_INDEX || *sqrt_price_x64 < sqrt_price_at_tick(r + 1),
        forall|t: int|
            MIN_TICK_INDEX <= t <= MAX_TICK_INDEX && #[trigger] sqrt_price_at_tick(t) == *sqrt_price_x64 ==> r == t,
        r == tick_of_price(*sqrt_price_x64 as int),
{
    proof {
        lemma_sqrt_price_bounds();
    }
    let mut lo: i32 = MIN_TICK_INDEX;
    let mut hi: i32 = MAX_TICK_INDEX + 1;
    while hi - lo > 1
        invariant
            MIN_TICK_INDEX <= lo < hi <= MAX_TICK_INDEX + 1,
            sqrt_price_at_tick(lo as int) <= *sqrt_price_x64,
            hi == MAX_TICK_INDEX + 1 || *sqrt_price_x64 < sqrt_price_at_tick(hi as int),
        decreases hi - lo,
    {
        let mid = lo + (hi - lo) / 2;
        if sqrt_price_from_tick_index(mid) <= *sqrt_price_x64 {
            lo = mid;
        } else {
            hi = mid;
        }
    }
    proof {
        assert forall|t: int|
            MIN_TICK_INDEX <= t <= MAX_TICK_INDEX && #[trigger] sqrt_price_at_tick(t) == *sqrt_price_x64 implies lo == t by {
            lemma_tick_round_trip(t, lo as int);
        }
        let c = tick_of_price(*sqrt_price_x64 as int);
        lemma_bracket_unique(*sqrt_price_x64 as int, lo as int, c);
    }
    lo
}


proof fn lemma_tick_factor_below_floor(k: int)
    requires
        0 <= k < 19,
    ensures
        0 < tick_factor(k) < q64(),
        tick_factor(k) <= tick_ratio_floor(k as nat),
        tick_ratio_floor((k + 1) as nat) == tick_ratio_floor(k as nat) * tick_factor(k) / q64(),
{
    lemma_tick_ratio_floor_positive();
    if k == 0 {
        assert(tick_ratio_floor(0) == 18446744073709551616);
    } else if k == 1 {
        assert(tick_ratio_floor(1) == 18445821805675392311);
    } else if k == 2 {
        assert(tick_ratio_floor(2) == 18443977407934598850);
    } else if k == 3 {
        assert(tick_ratio_floor(3) == 18440289165698567478);
    } else if k == 4 {
        assert(tick_ratio_floor(4) == 18432914893692463368);
    } else if k == 5 {
        assert(tick_ratio_floor(5) == 18418175195415529478);
    } else if k == 6 {
        assert(tick_ratio_floor(6) == 18388731148799035466);
    } else if k == 7 {
        assert(tick_ratio_floor(7) == 18329984191681391131);
    } else if k == 8 {
        assert(tick_ratio_floor(8) == 18213052719148788671);
    } else if k == 9 {
        assert(tick_ratio_floor(9) == 17981422819357802651);
    } else if k == 10 {
        assert(tick_ratio_floor(10) == 17526963021261575450);
    } else if k == 11 {
        assert(tick_ratio_floor(11) == 16652210978343353594);
    } else if k == 12 {
        assert(tick_ratio_floor(12) == 15031501797419866121);
    } else if k == 13 {
        assert(tick_ratio_floor(13) == 12247947330323375219);
    } else if k == 14 {
        assert(tick_ratio_floor(14) == 8131771826984472022);
    } else if k == 15 {
        assert(tick_ratio_floor(15) == 3584502866425897898);
    } else if k == 16 {
        assert(tick_ratio_floor(16) == 696492473859659073);
    } else if k == 17 {
        assert(tick_ratio_floor(17) == 26296104664083085);
    } else if k == 18 {
        assert(tick_ratio_floor(18) == 37483609360998);
    }
}

proof fn lemma_tick_ratio_positive(rest: int, k: nat, r: int)
    requires
        rest >= 0,
        k <= 19,
        r >= tick_ratio_floor(k),
    ensures
        apply_tick_bits(r, rest, k) >= tick_ratio_floor(19),
    decreases 19 - k,
{
    lemma_tick_ratio_floor_positive();
    if k < 19 {
        lemma_tick_factor_below_floor(k as int);
        let c = tick_factor(k as int);
        assert(tick_ratio_floor(k) >= 0);
        if rest % 2 == 1 {
            assert(tick_ratio_floor(k) * c <= r * c) by (nonlinear_arith)
                requires tick_ratio_floor(k) <= r, c > 0;
            vstd::arithmetic::div_mod::lemma_div_is_ordered(tick_ratio_floor(k) * c, r * c, q64());
            lemma_tick_ratio_positive(rest / 2, k + 1, r * c / q64());
        } else {
            assert(tick_ratio_floor(k) * c <= tick_ratio_floor(k) * q64()) by (nonlinear_arith)
                requires tick_ratio_floor(k) >= 0, c < q64();
            vstd::arithmetic::div_mod::lemma_div_is_ordered(tick_ratio_floor(k) * c, tick_ratio_floor(k) * q64(), q64());
            vstd::arithmetic::div_mod::lemma_div_multiples_vanish(tick_ratio_floor(k), q64());
            assert(tick_ratio_floor(k) * q64() == q64() * tick_ratio_floor(k)) by (nonlinear_arith);
            lemma_tick_ratio_positive(rest / 2, k + 1, r);
        }
    }
}

proof fn lemma_apply_tick_bits_zero_rest(r: int, k: nat)
    requires
        k <= 19,
    ensures
        apply_tick_bits(r, 0, k) == r,
    decreases 19 - k,
{
    if k < 19 {
        lemma_apply_tick_bits_zero_rest(r, k + 1);
    }
}

/// What is left of a gap between two products after every factor from bit
/// `j` on has been applied to it.
pub open spec fn shrink_gap(g: int, j: nat) -> int
    decreases 19 - j,
{
    if j >= 19 {
        g
    } else {
        shrink_gap(g * tick_factor(j as int) / q64(), j + 1)
    }
}

proof fn lemma_shrunk_gaps_positive(k: int)
    requires
        0 <= k < 19,
    ensures
        shrink_gap(tick_ratio_floor(k as nat) - tick_factor(k), (k + 1) as nat) >= 1,
{
    lemma_tick_ratio_floor_positive();
    if k == 0 {
        assert(shrink_gap(922268034159305, 1) == shrink_gap(922175816577647, 2));
        assert(shrink_gap(922175816577647, 2) == shrink_gap(921991409075917, 3));
        assert(shrink_gap(921991409075917, 3) == shrink_gap(921622704692990, 4));
        assert(shrink_gap(921622704692990, 4) == shrink_gap(920885738202844, 5));
        assert(shrink_gap(920885738202844, 5) == shrink_gap(919413572675237, 6));
        assert(shrink_gap(919413572675237, 6) == shrink_gap(916476298249379, 7));
        assert(shrink_gap(916476298249379, 7) == shrink_gap(910629870779781, 8));
        assert(shrink_gap(910629870779781, 8) == shrink_gap(899048665313130, 9));
        assert(shrink_gap(899048665313130, 9) == shrink_gap(876326243454664, 10));
        assert(shrink_gap(876326243454664, 10) == shrink_gap(832589734694138, 11));
        assert(shrink_gap(832589734694138, 11) == shrink_gap(751556301433152, 12));
        assert(shrink_gap(751556301433152, 12) == shrink_gap(612382057347450, 13));
        assert(shrink_gap(612382057347450, 13) == shrink_gap(406578427142640, 14));
        assert(shrink_gap(406578427142640, 14) == shrink_gap(179220662916727, 15));
        assert(shrink_gap(179220662916727, 15) == shrink_gap(34823753120918, 16));
        assert(shrink_gap(34823753120918, 16) == shrink_gap(1314772364716, 17));
        assert(shrink_gap(1314772364716, 17) == shrink_gap(1874133615, 18));
        assert(shrink_gap(1874133615, 18) == shrink_gap(3808, 19));
        assert(shrink_gap(3808, 19) == 3808);
        assert(tick_ratio_floor(0) - tick_factor(0) == 922268034159305);
    } else if k == 1 {
        assert(shrink_gap(922221924215813, 2) == shrink_gap(922037507493939, 3));
        assert(shrink_gap(922037507493939, 3) == shrink_gap(921668784676254, 4));
        assert(shrink_gap(921668784676254, 4) == shrink_gap(920931781338705, 5));
        assert(shrink_gap(920931781338705, 5) == shrink_gap(919459542204662, 6));
        assert(shrink_gap(919459542204662, 6) == shrink_gap(916522120918754, 7));
        assert(shrink_gap(916522120918754, 7) == shrink_gap(910675401135090, 8));
        assert(shrink_gap(910675401135090, 8) == shrink_gap(899093616622641, 9));
        assert(shrink_gap(899093616622641, 9) == shrink_gap(876370058671484, 10));
        assert(shrink_gap(876370058671484, 10) == shrink_gap(832631363140188, 11));
        assert(shrink_gap(832631363140188, 11) == shrink_gap(751593878308825, 12));
        assert(shrink_gap(751593878308825, 12) == shrink_gap(612412675684878, 13));
        assert(shrink_gap(612412675684878, 13) == shrink_gap(406598755555800, 14));
        assert(shrink_gap(406598755555800, 14) == shrink_gap(179229623725859, 15));
        assert(shrink_gap(179229623725859, 15) == shrink_gap(34825494265046, 16));
        assert(shrink_gap(34825494265046, 16) == shrink_gap(1314838101691, 17));
        assert(shrink_gap(1314838101691, 17) == shrink_gap(1874227320, 18));
        assert(shrink_gap(1874227320, 18) == shrink_gap(3808, 19));
        assert(shrink_gap(3808, 19) == 3808);
        assert(tick_ratio_floor(1) - tick_factor(1) == 922221924215813);
    } else if k == 2 {
        assert(shrink_gap(922129711244688, 3) == shrink_gap(921760951554721, 4));
        assert(shrink_gap(921760951554721, 4) == shrink_gap(921023874516838, 5));
        assert(shrink_gap(921023874516838, 5) == shrink_gap(919551488158881, 6));
        assert(shrink_gap(919551488158881, 6) == shrink_gap(916613773130845, 7));
        assert(shrink_gap(916613773130845, 7) == shrink_gap(910766468675203, 8));
        assert(shrink_gap(910766468675203, 8) == shrink_gap(899183525984303, 9));
        assert(shrink_gap(899183525984303, 9) == shrink_gap(876457695677350, 10));
        assert(shrink_gap(876457695677350, 10) == shrink_gap(832714626276501, 11));
        assert(shrink_gap(832714626276501, 11) == shrink_gap(751669037696655, 12));
        assert(shrink_gap(751669037696655, 12) == shrink_gap(612473916952446, 13));
        assert(shrink_gap(612473916952446, 13) == shrink_gap(406639415431355, 14));
        assert(shrink_gap(406639415431355, 14) == shrink_gap(179247546688231, 15));
        assert(shrink_gap(179247546688231, 15) == shrink_gap(34828976814473, 16));
        assert(shrink_gap(34828976814473, 16) == shrink_gap(1314969585501, 17));
        assert(shrink_gap(1314969585501, 17) == shrink_gap(1874414742, 18));
        assert(shrink_gap(1874414742, 18) == shrink_gap(3808, 19));
        assert(shrink_gap(3808, 19) == 3808);
        assert(tick_ratio_floor(2) - tick_factor(2) == 922129711244688);
    } else if k == 3 {
        assert(shrink_gap(921945312962640, 4) == shrink_gap(921208088501979, 5));
        assert(shrink_gap(921208088501979, 5) == shrink_gap(919735407652027, 6));
        assert(shrink_gap(919735407652027, 6) == shrink_gap(916797105051608, 7));
        assert(shrink_gap(916797105051608, 7) == shrink_gap(910948631076602, 8));
        assert(shrink_gap(910948631076602, 8) == shrink_gap(899363371681335, 9));
        assert(shrink_gap(899363371681335, 9) == shrink_gap(876632995981063, 10));
        assert(shrink_gap(876632995981063, 10) == shrink_gap(832881177528903, 11));
        assert(shrink_gap(832881177528903, 11) == shrink_gap(751819379020885, 12));
        assert(shrink_gap(751819379020885, 12) == shrink_gap(612596417860576, 13));
        assert(shrink_gap(612596417860576, 13) == shrink_gap(406720747380836, 14));
        assert(shrink_gap(406720747380836, 14) == shrink_gap(179283397990044, 15));
        assert(shrink_gap(179283397990044, 15) == shrink_gap(34835942958125, 16));
        assert(shrink_gap(34835942958125, 16) == shrink_gap(1315232592568, 17));
        assert(shrink_gap(1315232592568, 17) == shrink_gap(1874789644, 18));
        assert(shrink_gap(1874789644, 18) == shrink_gap(3809, 19));
        assert(shrink_gap(3809, 19) == 3809);
        assert(tick_ratio_floor(3) - tick_factor(3) == 921945312962640);
    } else if k == 4 {
        assert(shrink_gap(921576627013551, 5) == shrink_gap(920103357002892, 6));
        assert(shrink_gap(920103357002892, 6) == shrink_gap(917163878905123, 7));
        assert(shrink_gap(917163878905123, 7) == shrink_gap(911313065189595, 8));
        assert(shrink_gap(911313065189595, 8) == shrink_gap(899723170995408, 9));
        assert(shrink_gap(899723170995408, 9) == shrink_gap(876983701780942, 10));
        assert(shrink_gap(876983701780942, 10) == shrink_gap(833214379976117, 11));
        assert(shrink_gap(833214379976117, 11) == shrink_gap(752120151884664, 12));
        assert(shrink_gap(752120151884664, 12) == shrink_gap(612841493185956, 13));
        assert(shrink_gap(612841493185956, 13) == shrink_gap(406883460084660, 14));
        assert(shrink_gap(406883460084660, 14) == shrink_gap(179355122106961, 15));
        assert(shrink_gap(179355122106961, 15) == shrink_gap(34849879425605, 16));
        assert(shrink_gap(34849879425605, 16) == shrink_gap(1315758764524, 17));
        assert(shrink_gap(1315758764524, 17) == shrink_gap(1875539672, 18));
        assert(shrink_gap(1875539672, 18) == shrink_gap(3810, 19));
        assert(shrink_gap(3810, 19) == 3810);
        assert(tick_ratio_floor(4) - tick_factor(4) == 921576627013551);
    } else if k == 5 {
        assert(shrink_gap(920839697368965, 6) == shrink_gap(917897866865499, 7));
        assert(shrink_gap(917897866865499, 7) == shrink_gap(912042370860443, 8));
        assert(shrink_gap(912042370860443, 8) == shrink_gap(900443201505081, 9));
        assert(shrink_gap(900443201505081, 9) == shrink_gap(877685534346919, 10));
        assert(shrink_gap(877685534346919, 10) == shrink_gap(833881184826788, 11));
        assert(shrink_gap(833881184826788, 11) == shrink_gap(752722058641936, 12));
        assert(shrink_gap(752722058641936, 12) == shrink_gap(613331938010445, 13));
        assert(shrink_gap(613331938010445, 13) == shrink_gap(407209080802884, 14));
        assert(shrink_gap(407209080802884, 14) == shrink_gap(179498656434126, 15));
        assert(shrink_gap(179498656434126, 15) == shrink_gap(34877769089063, 16));
        assert(shrink_gap(34877769089063, 16) == shrink_gap(1316811740022, 17));
        assert(shrink_gap(1316811740022, 17) == shrink_gap(1877040629, 18));
        assert(shrink_gap(1877040629, 18) == shrink_gap(3813, 19));
        assert(shrink_gap(3813, 19) == 3813);
        assert(tick_ratio_floor(5) - tick_factor(5) == 920839697368965);
    } else if k == 6 {
        assert(shrink_gap(919367605444114, 7) == shrink_gap(913502733615575, 8));
        assert(shrink_gap(913502733615575, 8) == shrink_gap(901884991663743, 9));
        assert(shrink_gap(901884991663743, 9) == shrink_gap(879090884916179, 10));
        assert(shrink_gap(879090884916179, 10) == shrink_gap(835216395847058, 11));
        assert(shrink_gap(835216395847058, 11) == shrink_gap(753927317623895, 12));
        assert(shrink_gap(753927317623895, 12) == shrink_gap(614314005453165, 13));
        assert(shrink_gap(614314005453165, 13) == shrink_gap(407861104211177, 14));
        assert(shrink_gap(407861104211177, 14) == shrink_gap(179786069783360, 15));
        assert(shrink_gap(179786069783360, 15) == shrink_gap(34933615392466, 16));
        assert(shrink_gap(34933615392466, 16) == shrink_gap(1318920219718, 17));
        assert(shrink_gap(1318920219718, 17) == shrink_gap(1880046148, 18));
        assert(shrink_gap(1880046148, 18) == shrink_gap(3820, 19));
        assert(shrink_gap(3820, 19) == 3820);
        assert(tick_ratio_floor(6) - tick_factor(6) == 919367605444114);
    } else if k == 7 {
        assert(shrink_gap(916430477870963, 8) == shrink_gap(904775501463220, 9));
        assert(shrink_gap(904775501463220, 9) == shrink_gap(881908340402153, 10));
        assert(shrink_gap(881908340402153, 10) == shrink_gap(837893235132770, 11));
        assert(shrink_gap(837893235132770, 11) == shrink_gap(756343628261979, 12));
        assert(shrink_gap(756343628261979, 12) == shrink_gap(616282860317290, 13));
        assert(shrink_gap(616282860317290, 13) == shrink_gap(409168284760188, 14));
        assert(shrink_gap(409168284760188, 14) == shrink_gap(180362277837959, 15));
        assert(shrink_gap(180362277837959, 15) == shrink_gap(35045576405851, 16));
        assert(shrink_gap(35045576405851, 16) == shrink_gap(1323147312812, 17));
        assert(shrink_gap(1323147312812, 17) == shrink_gap(1886071630, 18));
        assert(shrink_gap(1886071630, 18) == shrink_gap(3832, 19));
        assert(shrink_gap(3832, 19) == 3832);
        assert(tick_ratio_floor(7) - tick_factor(7) == 916430477870963);
    } else if k == 8 {
        assert(shrink_gap(910584342700817, 9) == shrink_gap(887570369852800, 10));
        assert(shrink_gap(887570369852800, 10) == shrink_gap(843272678728525, 11));
        assert(shrink_gap(843272678728525, 11) == shrink_gap(761199506930816, 12));
        assert(shrink_gap(761199506930816, 12) == shrink_gap(620239520601797, 13));
        assert(shrink_gap(620239520601797, 13) == shrink_gap(411795227688890, 14));
        assert(shrink_gap(411795227688890, 14) == shrink_gap(181520240045730, 15));
        assert(shrink_gap(181520240045730, 15) == shrink_gap(35270576076037, 16));
        assert(shrink_gap(35270576076037, 16) == shrink_gap(1331642185475, 17));
        assert(shrink_gap(1331642185475, 17) == shrink_gap(1898180590, 18));
        assert(shrink_gap(1898180590, 18) == shrink_gap(3856, 19));
        assert(shrink_gap(3856, 19) == 3856);
        assert(tick_ratio_floor(8) - tick_factor(8) == 910584342700817);
    } else if k == 9 {
        assert(shrink_gap(899003716251012, 10) == shrink_gap(854135398994469, 11));
        assert(shrink_gap(854135398994469, 11) == shrink_gap(771004991584761, 12));
        assert(shrink_gap(771004991584761, 12) == shrink_gap(628229211931936, 13));
        assert(shrink_gap(628229211931936, 13) == shrink_gap(417099818336816, 14));
        assert(shrink_gap(417099818336816, 14) == shrink_gap(183858515244207, 15));
        assert(shrink_gap(183858515244207, 15) == shrink_gap(35724918320482, 16));
        assert(shrink_gap(35724918320482, 16) == shrink_gap(1348795897341, 17));
        assert(shrink_gap(1348795897341, 17) == shrink_gap(1922632236, 18));
        assert(shrink_gap(1922632236, 18) == shrink_gap(3906, 19));
        assert(shrink_gap(3906, 19) == 3906);
        assert(tick_ratio_floor(9) - tick_factor(9) == 899003716251012);
    } else if k == 10 {
        assert(shrink_gap(876282430428437, 11) == shrink_gap(790996519631106, 12));
        assert(shrink_gap(790996519631106, 12) == shrink_gap(644518680932721, 13));
        assert(shrink_gap(644518680932721, 13) == shrink_gap(427914875058130, 14));
        assert(shrink_gap(427914875058130, 14) == shrink_gap(188625815980495, 15));
        assert(shrink_gap(188625815980495, 15) == shrink_gap(36651236196958, 16));
        assert(shrink_gap(36651236196958, 16) == shrink_gap(1383769070414, 17));
        assert(shrink_gap(1383769070414, 17) == shrink_gap(1972484516, 18));
        assert(shrink_gap(1972484516, 18) == shrink_gap(4007, 19));
        assert(shrink_gap(4007, 19) == 4007);
        assert(tick_ratio_floor(10) - tick_factor(10) == 876282430428437);
    } else if k == 11 {
        assert(shrink_gap(832548108329350, 12) == shrink_gap(678375688484336, 13));
        assert(shrink_gap(678375688484336, 13) == shrink_gap(450393536398598, 14));
        assert(shrink_gap(450393536398598, 14) == shrink_gap(198534459228568, 15));
        assert(shrink_gap(198534459228568, 15) == shrink_gap(38576550726090, 16));
        assert(shrink_gap(38576550726090, 16) == shrink_gap(1456459407021, 17));
        assert(shrink_gap(1456459407021, 17) == shrink_gap(2076100478, 18));
        assert(shrink_gap(2076100478, 18) == shrink_gap(4218, 19));
        assert(shrink_gap(4218, 19) == 4218);
        assert(tick_ratio_floor(11) - tick_factor(11) == 832548108329350);
    } else if k == 12 {
        assert(shrink_gap(751518726436177, 13) == shrink_gap(498955346742465, 14));
        assert(shrink_gap(498955346742465, 14) == shrink_gap(219940611796547, 15));
        assert(shrink_gap(219940611796547, 15) == shrink_gap(42735906908375, 16));
        assert(shrink_gap(42735906908375, 16) == shrink_gap(1613496086683, 17));
        assert(shrink_gap(1613496086683, 17) == shrink_gap(2299947379, 18));
        assert(shrink_gap(2299947379, 18) == shrink_gap(4673, 19));
        assert(shrink_gap(4673, 19) == 4673);
        assert(tick_ratio_floor(12) - tick_factor(12) == 751518726436177);
    } else if k == 13 {
        assert(shrink_gap(612351440540820, 14) == shrink_gap(269925858789444, 15));
        assert(shrink_gap(269925858789444, 15) == shrink_gap(52448369035455, 16));
        assert(shrink_gap(52448369035455, 16) == shrink_gap(1980190530952, 17));
        assert(shrink_gap(1980190530952, 17) == shrink_gap(2822649562, 18));
        assert(shrink_gap(2822649562, 18) == shrink_gap(5735, 19));
        assert(shrink_gap(5735, 19) == 5735);
        assert(tick_ratio_floor(13) - tick_factor(13) == 612351440540820);
    } else if k == 14 {
        assert(shrink_gap(406558099745822, 15) == shrink_gap(78996911764780, 16));
        assert(shrink_gap(78996911764780, 16) == shrink_gap(2982531955290, 17));
        assert(shrink_gap(2982531955290, 17) == shrink_gap(4251430550, 18));
        assert(shrink_gap(4251430550, 18) == shrink_gap(8638, 19));
        assert(shrink_gap(8638, 19) == 8638);
        assert(tick_ratio_floor(14) - tick_factor(14) == 406558099745822);
    } else if k == 15 {
        assert(shrink_gap(179211702555601, 16) == shrink_gap(6766145887141, 17));
        assert(shrink_gap(6766145887141, 17) == shrink_gap(9644758132, 18));
        assert(shrink_gap(9644758132, 18) == shrink_gap(19597, 19));
        assert(shrink_gap(19597, 19) == 19597);
        assert(tick_ratio_floor(15) - tick_factor(15) == 179211702555601);
    } else if k == 16 {
        assert(shrink_gap(34822012063840, 17) == shrink_gap(49636807962, 18));
        assert(shrink_gap(49636807962, 18) == shrink_gap(100856, 19));
        assert(shrink_gap(100856, 19) == 100856);
        assert(tick_ratio_floor(16) - tick_factor(16) == 34822012063840);
    } else if k == 17 {
        assert(shrink_gap(1314706631028, 18) == shrink_gap(2671337, 19));
        assert(shrink_gap(2671337, 19) == 2671337);
        assert(tick_ratio_floor(17) - tick_factor(17) == 1314706631028);
    } else if k == 18 {
        assert(shrink_gap(1874039916, 19) == 1874039916);
        assert(tick_ratio_floor(18) - tick_factor(18) == 1874039916);
    }
}

proof fn lemma_floor_superadditive(x: int, y: int, d: int)
    requires
        x >= 0,
        y >= 0,
        d > 0,
    ensures
        (x + y) / d >= x / d + y / d,
{
    vstd::arithmetic::div_mod::lemma_fundamental_div_mod(x, d);
    vstd::arithmetic::div_mod::lemma_fundamental_div_mod(y, d);
    let q = x / d + y / d;
    assert(d * q <= x + y) by (nonlinear_arith)
        requires x == d * (x / d) + x % d, y == d * (y / d) + y % d, x % d >= 0, y % d >= 0, q == x / d + y / d;
    vstd::arithmetic::div_mod::lemma_div_is_ordered(d * q, x + y, d);
    vstd::arithmetic::div_mod::lemma_div_multiples_vanish(q, d);
}

proof fn lemma_apply_tick_bits_gap(a: int, b: int, g: int, rest: int, j: nat)
    requires
        0 <= b <= a,
        0 <= g <= a - b,
        rest >= 0,
    ensures
        apply_tick_bits(a, rest, j) - apply_tick_bits(b, rest, j) >= shrink_gap(g, j),
    decreases 19 - j,
{
    if j < 19 {
        let c = tick_factor(j as int);
        lemma_tick_factor_below_floor(j as int);
        let g2 = g * c / q64();
        assert(g * c <= g * q64()) by (nonlinear_arith)
            requires g >= 0, c < q64();
        assert(g * c >= 0) by (nonlinear_arith)
            requires g >= 0, c > 0;
        vstd::arithmetic::div_mod::lemma_div_is_ordered(g * c, g * q64(), q64());
        vstd::arithmetic::div_mod::lemma_div_multiples_vanish(g, q64());
        assert(g * q64() == q64() * g) by (nonlinear_arith);
        assert(0 <= g2 <= g);
        if rest % 2 == 1 {
            assert(a * c >= b * c + g * c) by (nonlinear_arith)
                requires a - b >= g, c > 0;
            assert(b * c >= 0) by (nonlinear_arith)
                requires b >= 0, c > 0;
            lemma_floor_superadditive(b * c, g * c, q64());
            vstd::arithmetic::div_mod::lemma_div_is_ordered(b * c + g * c, a * c, q64());
            vstd::arithmetic::div_mod::lemma_div_pos_is_pos(b * c, q64());
            lemma_apply_tick_bits_gap(a * c / q64(), b * c / q64(), g2, rest / 2, j + 1);
        } else {
            lemma_apply_tick_bits_gap(a, b, g2, rest / 2, j + 1);
        }
    }
}

/// With bits `0..k` of a magnitude all set and bits `0..k` of the next
/// magnitude all clear, the next one's product is strictly smaller.
proof fn lemma_apply_tick_bits_increment_strict(rest: int, k: nat)
    requires
        k < 19,
        rest >= 0,
        rest + 1 < vstd::arithmetic::power2::pow2((19 - k) as nat),
    ensures
        apply_tick_bits(q64(), rest + 1, k) < apply_tick_bits(tick_ratio_floor(k), rest, k),
    decreases 19 - k,
{
    lemma_tick_factor_below_floor(k as int);
    lemma_tick_ratio_floor_positive();
    let c = tick_factor(k as int);
    vstd::arithmetic::power2::lemma_pow2_unfold((19 - k) as nat);
    if rest % 2 == 0 {
        assert((rest + 1) % 2 == 1 && (rest + 1) / 2 == rest / 2);
        vstd::arithmetic::div_mod::lemma_div_multiples_vanish(c, q64());
        assert(q64() * c / q64() == c);
        lemma_shrunk_gaps_positive(k as int);
        lemma_apply_tick_bits_gap(tick_ratio_floor(k), c, tick_ratio_floor(k) - c, rest / 2, k + 1);
    } else {
        assert((rest + 1) % 2 == 0 && (rest + 1) / 2 == rest / 2 + 1);
        if k == 18 {
            assert(vstd::arithmetic::power2::pow2(0) == 1) by {
                vstd::arithmetic::power2::lemma2_to64();
            }
            assert(false);
        } else {
            lemma_apply_tick_bits_increment_strict(rest / 2, k + 1);
        }
    }
}

/// The square-root price strictly increases from one tick to the next over
/// the whole tick domain.
pub proof fn lemma_sqrt_price_increasing_step(tick: int)
    requires
        MIN_TICK_INDEX <= tick < MAX_TICK_INDEX,
    ensures
        sqrt_price_at_tick(tick) < sqrt_price_at_tick(tick + 1),
{
    vstd::arithmetic::power2::lemma2_to64();
    vstd::arithmetic::power2::lemma_pow2_adds(16, 3);
    assert(vstd::arithmetic::power2::pow2(19) == 524288);
    lemma_tick_ratio_floor_positive();
    if tick < 0 {
        lemma_apply_tick_bits_increment_strict(-tick - 1, 0);
    } else if tick == 0 {
        lemma_tick_factor_below_floor(0);
        lemma_apply_tick_bits_zero_rest(q64(), 0);
        assert(apply_tick_bits(q64(), 1, 0) == apply_tick_bits(tick_factor(0), 0, 1)) by {
            vstd::arithmetic::div_mod::lemma_div_multiples_vanish(tick_factor(0), q64());
            assert(q64() * tick_factor(0) / q64() == tick_factor(0));
        }
        lemma_apply_tick_bits_zero_rest(tick_factor(0), 1);
        assert((u128::MAX as int) / 18445821805675392311 == 18447666387855959851);
    } else {
        let r2 = tick_ratio(tick);
        let r1 = tick_ratio(tick + 1);
        lemma_apply_tick_bits_increment_strict(tick, 0);
        lemma_tick_ratio_positive(tick + 1, 0, q64());
        lemma_tick_ratio_positive(tick, 0, q64());
        lemma_tick_ratio_upper(tick, 0, q64());
        let m = u128::MAX as int;
        let x = m / r2;
        vstd::arithmetic::div_mod::lemma_fundamental_div_mod(m, r2);
        assert(x * r2 <= m) by (nonlinear_arith)
            requires m == r2 * (m / r2) + m % r2, m % r2 >= 0, x == m / r2;
        assert(x >= r1) by {
            vstd::arithmetic::div_mod::lemma_div_is_ordered_by_denominator(m, r2, q64());
            assert(m / q64() == q64() - 1);
        }
        assert((x + 1) * r1 <= m) by (nonlinear_arith)
            requires x * r2 <= m, r1 + 1 <= r2, x >= r1, r1 >= 0, x >= 0;
        lemma_floor_at_least(m, r1, x + 1);
    }
}

proof fn lemma_tick_ratio_upper(rest: int, k: nat, r: int)
    requires
        rest >= 0,
        0 <= r <= q64(),
    ensures
        apply_tick_bits(r, rest, k) <= q64(),
    decreases 19 - k,
{
    if k < 19 {
        lemma_tick_factor_below_floor(k as int);
        let c = tick_factor(k as int);
        if rest % 2 == 1 {
            assert(r * c <= q64() * q64()) by (nonlinear_arith)
                requires 0 <= r <= q64(), 0 < c < q64();
            assert(r * c >= 0) by (nonlinear_arith)
                requires r >= 0, c > 0;
            vstd::arithmetic::div_mod::lemma_div_is_ordered(r * c, q64() * q64(), q64());
            vstd::arithmetic::div_mod::lemma_div_multiples_vanish(q64(), q64());
            vstd::arithmetic::div_mod::lemma_div_pos_is_pos(r * c, q64());
            lemma_tick_ratio_upper(rest / 2, k + 1, r * c / q64());
        } else {
            lemma_tick_ratio_upper(rest / 2, k + 1, r);
        }
    }
}

/// The square-root price strictly increases with the tick over the whole
/// tick domain.
pub proof fn lemma_sqrt_price_strictly_increasing(a: int, b: int)
    requires
        MIN_TICK_INDEX <= a < b <= MAX_TICK_INDEX,
    ensures
        sqrt_price_at_tick(a) < sqrt_price_at_tick(b),
    decreases b - a,
{
    lemma_sqrt_price_increasing_step(b - 1);
    if a < b - 1 {
        lemma_sqrt_price_strictly_increasing(a, b - 1);
    }
}

/// The square-root price does not decrease with the tick.
pub proof fn lemma_sqrt_price_monotone(a: int, b: int)
    requires
        MIN_TICK_INDEX <= a <= b <= MAX_TICK_INDEX,
    ensures
        sqrt_price_at_tick(a) <= sqrt_price_at_tick(b),
{
    if a < b {
        lemma_sqrt_price_strictly_increasing(a, b);
    }
}

/// The price bounds of the tick domain bound every tick's price.
pub proof fn lemma_sqrt_price_in_bounds(tick: int)
    requires
        MIN_TICK_INDEX <= tick <= MAX_TICK_INDEX,
    ensures
        MIN_SQRT_PRICE_X64 <= sqrt_price_at_tick(tick) <= MAX_SQRT_PRICE_X64,
{
    lemma_sqrt_price_bounds();
    lemma_sqrt_price_monotone(MIN_TICK_INDEX as int, tick);
    lemma_sqrt_price_monotone(tick, MAX_TICK_INDEX as int);
}

/// `tick` is the current tick of `sqrt_price`: the price lies in the
/// priced domain and in the tick's bracket, its upper end included (where a
/// price that has just crossed a tick leftward stops). Below the lowest tick
/// only the lowest price qualifies.
pub open spec fn price_in_tick(tick: int, sqrt_price: int) -> bool {
    &&& MIN_SQRT_PRICE_X64 <= sqrt_price <= MAX_SQRT_PRICE_X64
    &&& ((MIN_TICK_INDEX <= tick <= MAX_TICK_INDEX && sqrt_price_at_tick(tick) <= sqrt_price && (tick
        == MAX_TICK_INDEX || sqrt_price <= sqrt_price_at_tick(tick + 1))) || (tick == MIN_TICK_INDEX
        - 1 && sqrt_price == MIN_SQRT_PRICE_X64))
}

/// Whether `tick` is the current tick of `sqrt_price`; see `price_in_tick`.
pub fn is_price_in_tick(tick: i32, sqrt_price: u128) -> (r: bool)
    ensures
        r == price_in_tick(tick as int, sqrt_price as int),
{
    if sqrt_price < MIN_SQRT_PRICE_X64 || sqrt_price > MAX_SQRT_PRICE_X64 {
        return false;
    }
    if tick == MIN_TICK_INDEX - 1 {
        return sqrt_price == MIN_SQRT_PRICE_X64;
    }
    if tick < MIN_TICK_INDEX || tick > MAX_TICK_INDEX {
        return false;
    }
    if sqrt_price_from_tick_index(tick) > sqrt_price {
        return false;
    }
    tick == MAX_TICK_INDEX || sqrt_price <= sqrt_price_from_tick_index(tick + 1)
}

/// The tick whose bracket holds `sqrt_price`: the highest tick whose price
/// does not exceed it.
pub open spec fn tick_of_price(sqrt_price: int) -> int {
    choose|t: int|
        MIN_TICK_INDEX <= t <= MAX_TICK_INDEX && #[trigger] sqrt_price_at_tick(t) <= sqrt_price && (t
            == MAX_TICK_INDEX || sqrt_price < sqrt_price_at_tick(t + 1))
}

/// At most one tick brackets a price.
pub proof fn lemma_bracket_unique(p: int, a: int, b: int)
    requires
        MIN_TICK_INDEX <= a <= MAX_TICK_INDEX,
        MIN_TICK_INDEX <= b <= MAX_TICK_INDEX,
        sqrt_price_at_tick(a) <= p,
        a == MAX_TICK_INDEX || p < sqrt_price_at_tick(a + 1),
        sqrt_price_at_tick(b) <= p,
        b == MAX_TICK_INDEX || p < sqrt_price_at_tick(b + 1),
    ensures
        a == b,
{
    if a < b {
        lemma_sqrt_price_monotone(a + 1, b);
    } else if b < a {
        lemma_sqrt_price_monotone(b + 1, a);
    }
}

/// A tick's own price brackets that tick and no other: the tick
/// `tick_index_from_sqrt_price` returns for the price of `tick` is `tick`.
pub proof fn lemma_tick_round_trip(tick: int, r: int)
    requires
        MIN_TICK_INDEX <= tick <= MAX_TICK_INDEX,
        MIN_TICK_INDEX <= r <= MAX_TICK_INDEX,
        sqrt_price_at_tick(r) <= sqrt_price_at_tick(tick),
        r == MAX_TICK_INDEX || sqrt_price_at_tick(tick) < sqrt_price_at_tick(r + 1),
    ensures
        r == tick,
{
    if r < tick {
        if r + 1 < tick {
            lemma_sqrt_price_strictly_increasing(r + 1, tick);
        }
    } else if r > tick {
        lemma_sqrt_price_strictly_increasing(tick, r);
    }
}

} // verus!
