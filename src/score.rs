use vstd::arithmetic::div_mod::{lemma_fundamental_div_mod, lemma_fundamental_div_mod_converse};
use vstd::prelude::*;

verus! {

/// `10^9`.
pub open spec fn giga() -> int {
    1_000_000_000
}

/// `10^82`.
pub open spec fn ten_pow_82() -> int {
    let g = giga();
    g * g * g * g * g * g * g * g * g * 10
}

/// `x^15`.
pub open spec fn pow15(x: int) -> int {
    let x3 = x * x * x;
    x3 * x3 * x3 * x3 * x3
}

/// The values that `(100 - c) * (100 - i) * (100 - a)` takes when each of the
/// three impact weights is one of `0`, `22` and `56` hundredths.
pub open spec fn is_impact_product(p: int) -> bool {
    p == 85_184 || p == 151_008 || p == 193_600 || p == 267_696 || p == 343_200
        || p == 440_000 || p == 474_552 || p == 608_400 || p == 780_000 || p == 1_000_000
}

/// `1.08 * 3.25 * (ISS - 0.02)^15`, in units of `10^-92`, for the ISS that
/// `p` gives.
pub open spec fn scope_power(p: int) -> int {
    351 * pow15(980_000 - p)
}

/// The floor of `scope_power(p) / 10^82`, which is never a whole number. The
/// power is far too large for machine integers, and the impact weights give
/// only ten values of `p`, so the floors are tabulated, each one proved.
fn scope_power_floor(p: u64) -> (r: i64)
    requires
        is_impact_product(p as int),
    ensures
        r as int == scope_power(p as int) / ten_pow_82(),
        -1 <= r < 10_000_000_000,
        scope_power(p as int) % ten_pow_82() != 0,
{
    if p == 85_184 {
        proof {
            assert(0 < scope_power(85_184) - 6_626_942_947 * ten_pow_82() < ten_pow_82())
                by (nonlinear_arith);
            lemma_floor_by_remainder(scope_power(85_184), 6_626_942_947);
        }
        6_626_942_947
    } else if p == 151_008 {
        proof {
            assert(0 < scope_power(151_008) - 2_106_503_616 * ten_pow_82() < ten_pow_82())
                by (nonlinear_arith);
            lemma_floor_by_remainder(scope_power(151_008), 2_106_503_616);
        }
        2_106_503_616
    } else if p == 193_600 {
        proof {
            assert(0 < scope_power(193_600) - 954_903_947 * ten_pow_82() < ten_pow_82())
                by (nonlinear_arith);
            lemma_floor_by_remainder(scope_power(193_600), 954_903_947);
        }
        954_903_947
    } else if p == 267_696 {
        proof {
            assert(0 < scope_power(267_696) - 216_415_251 * ten_pow_82() < ten_pow_82())
                by (nonlinear_arith);
            lemma_floor_by_remainder(scope_power(267_696), 216_415_251);
        }
        216_415_251
    } else if p == 343_200 {
        proof {
            assert(0 < scope_power(343_200) - 40_304_444 * ten_pow_82() < ten_pow_82())
                by (nonlinear_arith);
            lemma_floor_by_remainder(scope_power(343_200), 40_304_444);
        }
        40_304_444
    } else if p == 440_000 {
        proof {
            assert(0 < scope_power(440_000) - 3_397_922 * ten_pow_82() < ten_pow_82())
                by (nonlinear_arith);
            lemma_floor_by_remainder(scope_power(440_000), 3_397_922);
        }
        3_397_922
    } else if p == 474_552 {
        proof {
            assert(0 < scope_power(474_552) - 1_260_243 * ten_pow_82() < ten_pow_82())
                by (nonlinear_arith);
            lemma_floor_by_remainder(scope_power(474_552), 1_260_243);
        }
        1_260_243
    } else if p == 608_400 {
        proof {
            assert(0 < scope_power(608_400) - 12_486 * ten_pow_82() < ten_pow_82())
                by (nonlinear_arith);
            lemma_floor_by_remainder(scope_power(608_400), 12_486);
        }
        12_486
    } else if p == 780_000 {
        proof {
            assert(0 < scope_power(780_000) - 1 * ten_pow_82() < ten_pow_82())
                by (nonlinear_arith);
            lemma_floor_by_remainder(scope_power(780_000), 1);
        }
        1
    } else {
        proof {
            assert(0 < scope_power(1_000_000) - -1 * ten_pow_82() < ten_pow_82())
                by (nonlinear_arith);
            lemma_floor_by_remainder(scope_power(1_000_000), -1);
        }
        -1
    }
}

proof fn lemma_floor_by_remainder(x: int, q: int)
    requires
        0 < x - q * ten_pow_82() < ten_pow_82(),
    ensures
        q == x / ten_pow_82(),
        x % ten_pow_82() != 0,
{
    lemma_fundamental_div_mod_converse(x, ten_pow_82(), q, x - q * ten_pow_82());
}

/// The weights of the seven scored metrics, each in hundredths (`0.62` is `62`),
/// and the scope flag (`true` when the scope is changed).
#[derive(Clone, Copy, Debug, PartialEq, Eq, Structural)]
pub struct Metrics {
    pub av: u64,
    pub ac: u64,
    pub pr: u64,
    pub ui: u64,
    pub c: u64,
    pub i: u64,
    pub a: u64,
    pub sc: bool,
}

/// A weight that the qualitative table gives to a confidentiality, integrity
/// or availability letter.
pub open spec fn is_impact_weight(w: int) -> bool {
    w == 0 || w == 22 || w == 56
}

impl Metrics {
    /// Exploitability weights lie in `[0, 1]`; impact weights are the table's.
    pub open spec fn wf(&self) -> bool {
        &&& self.av <= 100
        &&& self.ac <= 100
        &&& self.pr <= 100
        &&& self.ui <= 100
        &&& is_impact_weight(self.c as int)
        &&& is_impact_weight(self.i as int)
        &&& is_impact_weight(self.a as int)
    }
}

/// `10^84`.
pub open spec fn ten_pow_84() -> int {
    ten_pow_82() * 100
}

/// `10^93`.
pub open spec fn ten_pow_93() -> int {
    ten_pow_84() * giga()
}

/// The impact sub-score `1 - (1 - C)(1 - I)(1 - A)`, in millionths.
pub open spec fn iss(m: Metrics) -> int {
    1_000_000 - (100 - m.c) * (100 - m.i) * (100 - m.a)
}

/// Exploitability `8.22 * AV * AC * PR * UI`, in units of `10^-10`.
pub open spec fn exploitability(m: Metrics) -> int {
    822 * m.av * m.ac * m.pr * m.ui
}

/// Impact, in units of `10^-92`: `6.42 * ISS` when the scope is unchanged,
/// `7.52 * (ISS - 0.029) - 3.25 * (ISS - 0.02)^15` when it is changed.
pub open spec fn impact(m: Metrics) -> int {
    if m.sc {
        752 * (iss(m) - 29_000) * ten_pow_84() - 325 * pow15(iss(m) - 20_000)
    } else {
        642 * iss(m) * ten_pow_84()
    }
}

/// The base score before rounding, in units of `10^-94`: zero when the impact
/// is not positive, else `1.08 * Impact + Exploitability` (scope changed) or
/// `Impact + Exploitability` (scope unchanged), capped at `10`.
pub open spec fn unrounded_score(m: Metrics) -> int {
    if impact(m) <= 0 {
        0
    } else {
        let sum = if m.sc {
            108 * impact(m) + exploitability(m) * ten_pow_84()
        } else {
            100 * impact(m) + exploitability(m) * ten_pow_84()
        };
        let cap = 100 * ten_pow_93();
        if sum < cap { sum } else { cap }
    }
}

/// The least integer `k` with `k * unit >= x`.
pub open spec fn round_up(x: int, unit: int) -> int {
    if x % unit == 0 {
        x / unit
    } else {
        x / unit + 1
    }
}

/// The base score in tenths: the unrounded score rounded up to one decimal.
pub open spec fn base_score(m: Metrics) -> int {
    round_up(unrounded_score(m), ten_pow_93())
}

proof fn lemma_round_up_scaled(x: int, r: int, k: int, g: int)
    requires
        k > 0,
        g > 0,
        0 <= r < k,
    ensures
        round_up(k * x - r, k * g) == if r == 0 {
            round_up(x, g)
        } else {
            (x - 1) / g + 1
        },
{
    let kg = k * g;
    assert(kg > 0) by (nonlinear_arith)
        requires
            k > 0,
            g > 0,
            kg == k * g,
    ;
    if r == 0 {
        let q = x / g;
        let s = x % g;
        lemma_fundamental_div_mod(x, g);
        assert(k * x == q * kg + k * s) by (nonlinear_arith)
            requires
                x == g * q + s,
                kg == k * g,
        ;
        assert(0 <= k * s < kg) by (nonlinear_arith)
            requires
                0 <= s < g,
                k > 0,
                kg == k * g,
        ;
        lemma_fundamental_div_mod_converse(k * x, kg, q, k * s);
        assert((k * s == 0) == (s == 0)) by (nonlinear_arith)
            requires
                k > 0,
        ;
    } else {
        let q = (x - 1) / g;
        let s = (x - 1) % g;
        lemma_fundamental_div_mod(x - 1, g);
        let rest = k * (s + 1) - r;
        assert(k * x - r == q * kg + rest) by (nonlinear_arith)
            requires
                x - 1 == g * q + s,
                kg == k * g,
                rest == k * (s + 1) - r,
        ;
        assert(0 < rest < kg) by (nonlinear_arith)
            requires
                0 <= s < g,
                0 < r < k,
                kg == k * g,
                rest == k * (s + 1) - r,
        ;
        lemma_fundamental_div_mod_converse(k * x - r, kg, q, rest);
    }
}

proof fn lemma_round_up_capped(v: int, u: int)
    requires
        u > 0,
    ensures
        round_up(if v < 100 * u { v } else { 100 * u }, u) == if round_up(v, u) < 100 {
            round_up(v, u)
        } else {
            100
        },
{
    lemma_fundamental_div_mod_converse(100 * u, u, 100, 0);
    lemma_fundamental_div_mod(v, u);
    let q = v / u;
    let s = v % u;
    if v < 100 * u {
        assert(q < 100) by (nonlinear_arith)
            requires
                v == u * q + s,
                0 <= s < u,
                v < 100 * u,
        ;
    } else {
        assert(q >= 100) by (nonlinear_arith)
            requires
                v == u * q + s,
                0 <= s < u,
                v >= 100 * u,
        ;
    }
}

proof fn lemma_positive_shifted(d: int, r: int, k: int)
    requires
        0 < r < k,
    ensures
        (k * d - r > 0) == (d >= 1),
{
    if d >= 1 {
        assert(k * d >= k) by (nonlinear_arith)
            requires
                d >= 1,
                k > 0,
        ;
    } else {
        assert(k * d <= 0) by (nonlinear_arith)
            requires
                d <= 0,
                k > 0,
        ;
    }
}

/// Rounds `x / 10^9` up.
fn round_up_giga(x: i64) -> (r: i64)
    requires
        x >= 0,
    ensures
        r as int == round_up(x as int, giga()),
{
    if x % 1_000_000_000 == 0 {
        x / 1_000_000_000
    } else {
        x / 1_000_000_000 + 1
    }
}

/// Computes the base score, in tenths, from resolved metric weights.
pub fn vulnerability_calculate(metrics: Metrics) -> (r: u64)
    requires
        metrics.wf(),
    ensures
        r as int == base_score(metrics),
        0 <= r <= 100,
{
    let m = metrics;
    let ghost k = ten_pow_84();
    assert((100 - m.c) * (100 - m.i) <= 10_000) by (nonlinear_arith)
        requires
            m.c <= 100,
            m.i <= 100,
    ;
    let q: u64 = (100 - m.c) * (100 - m.i);
    assert(q * (100 - m.a) <= 1_000_000) by (nonlinear_arith)
        requires
            q <= 10_000,
            m.a <= 100,
    ;
    let p: u64 = q * (100 - m.a);
    assert(is_impact_product(p as int)) by (nonlinear_arith)
        requires
            is_impact_weight(m.c as int),
            is_impact_weight(m.i as int),
            is_impact_weight(m.a as int),
            q == (100 - m.c) * (100 - m.i),
            p == q * (100 - m.a),
    ;
    let iss_m: i64 = 1_000_000 - p as i64;
    assert(iss_m as int == iss(m));
    assert(m.av * m.ac <= 10_000) by (nonlinear_arith)
        requires
            m.av <= 100,
            m.ac <= 100,
    ;
    let e2: u64 = m.av * m.ac;
    assert(e2 * m.pr <= 1_000_000) by (nonlinear_arith)
        requires
            e2 <= 10_000,
            m.pr <= 100,
    ;
    let e3: u64 = e2 * m.pr;
    assert(e3 * m.ui <= 100_000_000) by (nonlinear_arith)
        requires
            e3 <= 1_000_000,
            m.ui <= 100,
    ;
    let e: u64 = 822 * (e3 * m.ui);
    assert(e as int == exploitability(m)) by (nonlinear_arith)
        requires
            e2 == m.av * m.ac,
            e3 == e2 * m.pr,
            e == 822 * (e3 * m.ui),
    ;
    proof {
        lemma_fundamental_div_mod_converse(0, ten_pow_93(), 0, 0);
    }
    if !m.sc {
        if iss_m == 0 {
            assert(impact(m) == 0) by (nonlinear_arith)
                requires
                    impact(m) == 642 * iss(m) * k,
                    iss(m) == 0,
            ;
            return 0;
        }
        let x: i64 = 64_200 * iss_m + e as i64;
        proof {
            assert(impact(m) > 0 && 100 * impact(m) + exploitability(m) * k == k * x)
                by (nonlinear_arith)
                requires
                    impact(m) == 642 * iss(m) * k,
                    iss(m) == iss_m,
                    iss_m > 0,
                    k > 0,
                    exploitability(m) == e,
                    x == 64_200 * iss_m + e,
            ;
            lemma_round_up_scaled(x as int, 0, k, giga());
            lemma_round_up_capped(k * x, ten_pow_93());
        }
        let t = round_up_giga(x);
        if t < 100 {
            t as u64
        } else {
            100
        }
    } else {
        let g = scope_power_floor(p);
        let cterm: i64 = 81_216 * (iss_m - 29_000);
        let ghost s = scope_power(p as int);
        let ghost rem = 100 * (s % ten_pow_82());
        proof {
            lemma_fundamental_div_mod(s, ten_pow_82());
            assert(pow15(iss(m) - 20_000) == pow15(980_000 - p));
            assert(108 * impact(m) == k * (cterm - g) - rem) by (nonlinear_arith)
                requires
                    impact(m) == 752 * (iss(m) - 29_000) * k - 325 * pow15(980_000 - p),
                    s == 351 * pow15(980_000 - p),
                    s == ten_pow_82() * g + s % ten_pow_82(),
                    rem == 100 * (s % ten_pow_82()),
                    k == ten_pow_82() * 100,
                    iss(m) == iss_m,
                    cterm == 81_216 * (iss_m - 29_000),
            ;
            lemma_positive_shifted(cterm - g, rem, k);
        }
        if cterm <= g {
            return 0;
        }
        let y: i64 = cterm + e as i64 - g;
        proof {
            lemma_round_up_scaled(y as int, rem, k, giga());
            lemma_round_up_capped(k * y - rem, ten_pow_93());
            assert(108 * impact(m) + exploitability(m) * k == k * y - rem) by (nonlinear_arith)
                requires
                    108 * impact(m) == k * (cterm - g) - rem,
                    exploitability(m) == e,
                    y == cterm + e - g,
            ;
        }
        let t = (y - 1) / 1_000_000_000 + 1;
        if t < 100 {
            t as u64
        } else {
            100
        }
    }
}

} // verus!
