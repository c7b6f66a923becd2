use vstd::prelude::*;

verus! {

/// Qualitative severity band of a base score.
#[derive(Clone, Copy, Debug, PartialEq, Eq, Structural)]
pub enum Rating {
    Negligible,
    Low,
    Medium,
    High,
    Critical,
    Invalid,
}

/// The band that holds the rational value `num / den`.
pub open spec fn rating_of(num: int, den: int) -> Rating {
    if 0 <= num && 10 * num < den {
        Rating::Negligible
    } else if den <= 10 * num && num < 4 * den {
        Rating::Low
    } else if 4 * den <= num && num < 7 * den {
        Rating::Medium
    } else if 7 * den <= num && num < 9 * den {
        Rating::High
    } else if 9 * den <= num && num <= 10 * den {
        Rating::Critical
    } else {
        Rating::Invalid
    }
}

/// Rates the score `num / den` (for instance a score in tenths with `den == 10`).
pub fn get_rating(num: i64, den: u64) -> (r: Rating)
    requires
        den > 0,
    ensures
        r == rating_of(num as int, den as int),
{
    let n = num as i128;
    let d = den as i128;
    if 0 <= n && 10 * n < d {
        Rating::Negligible
    } else if d <= 10 * n && n < 4 * d {
        Rating::Low
    } else if 4 * d <= n && n < 7 * d {
        Rating::Medium
    } else if 7 * d <= n && n < 9 * d {
        Rating::High
    } else if 9 * d <= n && n <= 10 * d {
        Rating::Critical
    } else {
        Rating::Invalid
    }
}

/// The order of the bands, from `Negligible` up to `Critical`; `Invalid` last.
pub open spec fn rank(r: Rating) -> int {
    match r {
        Rating::Negligible => 0,
        Rating::Low => 1,
        Rating::Medium => 2,
        Rating::High => 3,
        Rating::Critical => 4,
        Rating::Invalid => 5,
    }
}

/// The printed name of each band.
pub open spec fn label_of(r: Rating) -> Seq<char> {
    match r {
        Rating::Negligible => "None"@,
        Rating::Low => "Low"@,
        Rating::Medium => "Medium"@,
        Rating::High => "High"@,
        Rating::Critical => "Critical"@,
        Rating::Invalid => "Invalid Value"@,
    }
}

impl Rating {
    /// The printed name of the band: `None`, `Low`, `Medium`, `High`,
    /// `Critical` or `Invalid Value`.
    pub fn label(&self) -> (r: &'static str)
        ensures
            r@ == label_of(*self),
    {
        match self {
            Rating::Negligible => "None",
            Rating::Low => "Low",
            Rating::Medium => "Medium",
            Rating::High => "High",
            Rating::Critical => "Critical",
            Rating::Invalid => "Invalid Value",
        }
    }
}

proof fn lemma_below_carries(n1: int, d1: int, n2: int, d2: int, k: int)
    requires
        d1 > 0,
        d2 > 0,
        n1 * d2 <= n2 * d1,
        10 * n2 < k * d2,
    ensures
        10 * n1 < k * d1,
{
    assert(10 * n1 * d2 < k * d1 * d2) by (nonlinear_arith)
        requires
            d1 > 0,
            n1 * d2 <= n2 * d1,
            10 * n2 < k * d2,
    ;
    assert(10 * n1 < k * d1) by (nonlinear_arith)
        requires
            d2 > 0,
            10 * n1 * d2 < k * d1 * d2,
    ;
}

/// Over scores in `[0, 10]` rating is monotonic: of two scores `n1 / d1 <= n2 / d2`
/// the larger never falls in a lower band.
pub proof fn lemma_rating_monotonic(n1: int, d1: int, n2: int, d2: int)
    requires
        d1 > 0,
        d2 > 0,
        0 <= n1,
        n2 <= 10 * d2,
        n1 * d2 <= n2 * d1,
    ensures
        rank(rating_of(n1, d1)) <= rank(rating_of(n2, d2)),
        rank(rating_of(n1, d1)) <= 4,
        rank(rating_of(n2, d2)) <= 4,
{
    assert(n2 >= 0) by (nonlinear_arith)
        requires
            d1 > 0,
            d2 > 0,
            0 <= n1,
            n1 * d2 <= n2 * d1,
    ;
    assert(n1 <= 10 * d1) by (nonlinear_arith)
        requires
            d1 > 0,
            d2 > 0,
            n2 <= 10 * d2,
            n1 * d2 <= n2 * d1,
    ;
    if 10 * n2 < 1 * d2 {
        lemma_below_carries(n1, d1, n2, d2, 1);
    }
    if 10 * n2 < 40 * d2 {
        lemma_below_carries(n1, d1, n2, d2, 40);
    }
    if 10 * n2 < 70 * d2 {
        lemma_below_carries(n1, d1, n2, d2, 70);
    }
    if 10 * n2 < 90 * d2 {
        lemma_below_carries(n1, d1, n2, d2, 90);
    }
}

} // verus!
