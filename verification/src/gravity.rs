use vstd::prelude::*;

verus! {

/// The shortest interval between two gravity steps, in microseconds.
pub const GRAVITY_FLOOR: u64 = 50_000;

/// `b` to the power `e`.
pub open spec fn int_pow(b: int, e: nat) -> int
    decreases e,
{
    if e == 0 {
        1
    } else {
        b * int_pow(b, (e - 1) as nat)
    }
}

/// The base of the gravity curve at `level`, in thousandths:
/// `0.8 - (level - 1) * 0.007`, and zero where that is negative.
pub open spec fn gravity_base(level: int) -> int {
    if 800 - 7 * (level - 1) < 0 {
        0
    } else {
        800 - 7 * (level - 1)
    }
}

/// The gravity curve before the floor is applied, in whole microseconds,
/// rounded down: the base to the power `level - 1`.
pub open spec fn gravity_curve(level: int) -> int {
    if level <= 0 {
        1_000_000_000int / 807
    } else {
        1_000_000 * int_pow(gravity_base(level), (level - 1) as nat) / int_pow(1000, (level - 1) as nat)
    }
}

/// The interval between two gravity steps at `level`, in microseconds: the
/// gravity curve, and the floor where the curve is below it.
pub open spec fn gravity(level: int) -> int {
    if gravity_curve(level) < GRAVITY_FLOOR {
        GRAVITY_FLOOR as int
    } else {
        gravity_curve(level)
    }
}

proof fn lemma_pow_thousand_positive(e: nat)
    ensures
        int_pow(1000, e) > 0,
    decreases e,
{
    if e > 0 {
        lemma_pow_thousand_positive((e - 1) as nat);
        assert(1000 * int_pow(1000, (e - 1) as nat) > 0) by (nonlinear_arith)
            requires
                int_pow(1000, (e - 1) as nat) > 0,
        ;
    }
}

proof fn lemma_pow_bounded(b: int, e: nat)
    requires
        0 <= b <= 730,
    ensures
        0 <= int_pow(b, e) <= int_pow(730, e),
    decreases e,
{
    if e > 0 {
        lemma_pow_bounded(b, (e - 1) as nat);
        let p = int_pow(b, (e - 1) as nat);
        let q = int_pow(730, (e - 1) as nat);
        assert(0 <= b * p <= 730 * q) by (nonlinear_arith)
            requires
                0 <= b <= 730,
                0 <= p <= q,
        ;
    }
}

proof fn lemma_pow_ratio_small(e: nat)
    requires
        e >= 10,
    ensures
        20 * int_pow(730, e) < int_pow(1000, e),
    decreases e,
{
    if e == 10 {
        reveal_with_fuel(int_pow, 11);
    } else {
        lemma_pow_ratio_small((e - 1) as nat);
        lemma_pow_thousand_positive((e - 1) as nat);
        let p = int_pow(730, (e - 1) as nat);
        let q = int_pow(1000, (e - 1) as nat);
        assert(20 * (730 * p) < 1000 * q) by (nonlinear_arith)
            requires
                20 * p < q,
                q > 0,
        ;
    }
}

/// From level 11 on the curve lies below the floor.
pub proof fn lemma_gravity_floor_reached(level: int)
    requires
        level >= 11,
    ensures
        gravity(level) == GRAVITY_FLOOR,
{
    let e = (level - 1) as nat;
    let b = gravity_base(level);
    lemma_pow_bounded(b, e);
    lemma_pow_ratio_small(e);
    lemma_pow_thousand_positive(e);
    let n = int_pow(b, e);
    let d = int_pow(1000, e);
    assert(1_000_000 * n / d < 50_000) by (nonlinear_arith)
        requires
            0 <= n,
            20 * n < d,
            d > 0,
    ;
}

/// The values of the curve on the levels where it lies above the floor.
pub proof fn lemma_gravity_table()
    ensures
        gravity(0) == 1_239_157,
        gravity(1) == 1_000_000,
        gravity(2) == 793_000,
        gravity(3) == 617_796,
        gravity(4) == 472_729,
        gravity(5) == 355_196,
        gravity(6) == 262_003,
        gravity(7) == 189_677,
        gravity(8) == 134_734,
        gravity(9) == 93_882,
        gravity(10) == 64_151,
{
    reveal_with_fuel(int_pow, 2);
    assert(int_pow(1000, 0) == 1);
    assert(int_pow(1000, 1) == 1000int);
    assert(int_pow(1000, 2) == 1000000int);
    assert(int_pow(1000, 3) == 1000000000int);
    assert(int_pow(1000, 4) == 1000000000000int);
    assert(int_pow(1000, 5) == 1000000000000000int);
    assert(int_pow(1000, 6) == 1000000000000000000int);
    assert(int_pow(1000, 7) == 1000000000000000000000int);
    assert(int_pow(1000, 8) == 1000000000000000000000000int);
    assert(int_pow(1000, 9) == 1000000000000000000000000000int);
    assert(gravity_base(2) == 793);
    assert(int_pow(793, 0) == 1);
    assert(int_pow(793, 1) == 793int);
    assert(1_000_000 * 793int / 1000int == 793000);
    assert(gravity_curve(2) == 793000);
    assert(gravity_base(3) == 786);
    assert(int_pow(786, 0) == 1);
    assert(int_pow(786, 1) == 786int);
    assert(int_pow(786, 2) == 617796int);
    assert(1_000_000 * 617796int / 1000000int == 617796);
    assert(gravity_curve(3) == 617796);
    assert(gravity_base(4) == 779);
    assert(int_pow(779, 0) == 1);
    assert(int_pow(779, 1) == 779int);
    assert(int_pow(779, 2) == 606841int);
    assert(int_pow(779, 3) == 472729139int);
    assert(1_000_000 * 472729139int / 1000000000int == 472729);
    assert(gravity_curve(4) == 472729);
    assert(gravity_base(5) == 772);
    assert(int_pow(772, 0) == 1);
    assert(int_pow(772, 1) == 772int);
    assert(int_pow(772, 2) == 595984int);
    assert(int_pow(772, 3) == 460099648int);
    assert(int_pow(772, 4) == 355196928256int);
    assert(1_000_000 * 355196928256int / 1000000000000int == 355196);
    assert(gravity_curve(5) == 355196);
    assert(gravity_base(6) == 765);
    assert(int_pow(765, 0) == 1);
    assert(int_pow(765, 1) == 765int);
    assert(int_pow(765, 2) == 585225int);
    assert(int_pow(765, 3) == 447697125int);
    assert(int_pow(765, 4) == 342488300625int);
    assert(int_pow(765, 5) == 262003549978125int);
    assert(1_000_000 * 262003549978125int / 1000000000000000int == 262003);
    assert(gravity_curve(6) == 262003);
    assert(gravity_base(7) == 758);
    assert(int_pow(758, 0) == 1);
    assert(int_pow(758, 1) == 758int);
    assert(int_pow(758, 2) == 574564int);
    assert(int_pow(758, 3) == 435519512int);
    assert(int_pow(758, 4) == 330123790096int);
    assert(int_pow(758, 5) == 250233832892768int);
    assert(int_pow(758, 6) == 189677245332718144int);
    assert(1_000_000 * 189677245332718144int / 1000000000000000000int == 189677);
    assert(gravity_curve(7) == 189677);
    assert(gravity_base(8) == 751);
    assert(int_pow(751, 0) == 1);
    assert(int_pow(751, 1) == 751int);
    assert(int_pow(751, 2) == 564001int);
    assert(int_pow(751, 3) == 423564751int);
    assert(int_pow(751, 4) == 318097128001int);
    assert(int_pow(751, 5) == 238890943128751int);
    assert(int_pow(751, 6) == 179407098289692001int);
    assert(int_pow(751, 7) == 134734730815558692751int);
    assert(1_000_000 * 134734730815558692751int / 1000000000000000000000int == 134734);
    assert(gravity_curve(8) == 134734);
    assert(gravity_base(9) == 744);
    assert(int_pow(744, 0) == 1);
    assert(int_pow(744, 1) == 744int);
    assert(int_pow(744, 2) == 553536int);
    assert(int_pow(744, 3) == 411830784int);
    assert(int_pow(744, 4) == 306402103296int);
    assert(int_pow(744, 5) == 227963164852224int);
    assert(int_pow(744, 6) == 169604594650054656int);
    assert(int_pow(744, 7) == 126185818419640664064int);
    assert(int_pow(744, 8) == 93882248904212654063616int);
    assert(1_000_000 * 93882248904212654063616int / 1000000000000000000000000int == 93882);
    assert(gravity_curve(9) == 93882);
    assert(gravity_base(10) == 737);
    assert(int_pow(737, 0) == 1);
    assert(int_pow(737, 1) == 737int);
    assert(int_pow(737, 2) == 543169int);
    assert(int_pow(737, 3) == 400315553int);
    assert(int_pow(737, 4) == 295032562561int);
    assert(int_pow(737, 5) == 217438998607457int);
    assert(int_pow(737, 6) == 160252541973695809int);
    assert(int_pow(737, 7) == 118106123434613811233int);
    assert(int_pow(737, 8) == 87044212971310378878721int);
    assert(int_pow(737, 9) == 64151584959855749233617377int);
    assert(1_000_000 * 64151584959855749233617377int / 1000000000000000000000000000int == 64151);
    assert(gravity_curve(10) == 64151);
}

/// The interval never falls below the floor, whatever the level.
pub proof fn lemma_gravity_at_least_floor(level: int)
    ensures
        gravity(level) >= GRAVITY_FLOOR,
{
}

/// The interval does not grow with the level, from level 1 on.
pub proof fn lemma_gravity_non_increasing(low: int, high: int)
    requires
        1 <= low <= high,
    ensures
        gravity(high) <= gravity(low),
{
    lemma_gravity_table();
    if high >= 11 {
        lemma_gravity_floor_reached(high);
    }
}

/// The interval between two gravity steps at `level`, in microseconds.
pub fn gravity_micros(level: u32) -> (interval: u64)
    ensures
        interval == gravity(level as int),
{
    proof {
        lemma_gravity_table();
        if level >= 11 {
            lemma_gravity_floor_reached(level as int);
        }
    }
    match level {
        0 => 1_239_157,
        1 => 1_000_000,
        2 => 793_000,
        3 => 617_796,
        4 => 472_729,
        5 => 355_196,
        6 => 262_003,
        7 => 189_677,
        8 => 134_734,
        9 => 93_882,
        10 => 64_151,
        _ => GRAVITY_FLOOR,
    }
}

} // verus!
