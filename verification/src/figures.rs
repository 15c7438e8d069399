//! Figures in few characters.

use vstd::prelude::*;

verus! {

/// How a count is shortened.
#[derive(Clone, Copy, Debug, PartialEq, Eq)]
pub struct CountScale {
    /// What it is divided by.
    pub divisor: u64,
    /// What stands behind it.
    pub suffix: &'static str,
    /// How many digits stand behind the point.
    pub decimals: usize,
}

/// The scale is this one.
pub open spec fn is_scale(
    s: CountScale,
    divisor: int,
    suffix: Seq<char>,
    decimals: int,
) -> bool {
    s.divisor == divisor && s.suffix@ == suffix && s.decimals == decimals
}

/// What a count is divided by, what stands behind it and with how many digits.
pub open spec fn scale_of(s: Option<CountScale>) -> Option<(int, Seq<char>, int)> {
    match s {
        Some(s) => Some((s.divisor as int, s.suffix@, s.decimals as int)),
        None => None,
    }
}

/// The scale of a count on the home page.
pub open spec fn home_scale(count: int) -> Option<(int, Seq<char>, int)> {
    if count < 1_000 {
        None
    } else if count < 1_000_000 {
        Some((1_000, "k"@, 1))
    } else {
        Some((1_000_000, "M"@, 1))
    }
}

/// The scale of a count in a panel.
pub open spec fn panel_scale(count: int) -> Option<(int, Seq<char>, int)> {
    if count < 1_000 {
        None
    } else if count < 1_000_000 {
        Some((1_000, "k"@, decimals_below_ten(count, 1_000)))
    } else if count < 1_000_000_000 {
        Some((1_000_000, "M"@, decimals_below_ten(count, 1_000_000)))
    } else {
        Some((1_000_000_000, "B"@, decimals_below_ten(count, 1_000_000_000)))
    }
}

/// How a count is shortened on the home page: to millions or thousands, with one
/// digit behind the point; `None` leaves it as it is.
pub fn home_count_scale(count: u64) -> (r: Option<CountScale>)
    ensures
        scale_of(r) == home_scale(count as int),
        match r {
            Some(s) => if count >= 1_000_000 {
                is_scale(s, 1_000_000, "M"@, 1)
            } else {
                count >= 1_000 && is_scale(s, 1_000, "k"@, 1)
            },
            None => count < 1_000,
        },
{
    if count >= 1_000_000 {
        Some(CountScale { divisor: 1_000_000, suffix: "M", decimals: 1 })
    } else if count >= 1_000 {
        Some(CountScale { divisor: 1_000, suffix: "k", decimals: 1 })
    } else {
        None
    }
}

/// The digits behind the point of a count that is divided: one below ten, none above.
pub open spec fn decimals_below_ten(count: int, divisor: int) -> int {
    if count < 10 * divisor {
        1
    } else {
        0
    }
}

/// How a count is shortened in a panel: to billions, millions or thousands; `None`
/// leaves it as it is.
pub fn compact_count(count: u64) -> (r: Option<CountScale>)
    ensures
        scale_of(r) == panel_scale(count as int),
        match r {
            Some(s) => if count >= 1_000_000_000 {
                is_scale(
                    s,
                    1_000_000_000,
                    "B"@,
                    decimals_below_ten(count as int, 1_000_000_000),
                )
            } else if count >= 1_000_000 {
                is_scale(s, 1_000_000, "M"@, decimals_below_ten(count as int, 1_000_000))
            } else {
                count >= 1_000 && is_scale(s, 1_000, "k"@, decimals_below_ten(count as int, 1_000))
            },
            None => count < 1_000,
        },
{
    if count >= 1_000_000_000 {
        let decimals: usize = if count < 10_000_000_000 {
            1
        } else {
            0
        };
        Some(CountScale { divisor: 1_000_000_000, suffix: "B", decimals })
    } else if count >= 1_000_000 {
        let decimals: usize = if count < 10_000_000 {
            1
        } else {
            0
        };
        Some(CountScale { divisor: 1_000_000, suffix: "M", decimals })
    } else if count >= 1_000 {
        let decimals: usize = if count < 10_000 {
            1
        } else {
            0
        };
        Some(CountScale { divisor: 1_000, suffix: "k", decimals })
    } else {
        None
    }
}

/// A shortened count has one digit behind the point while there is one before it, and none
/// from ten on.
pub proof fn law_one_digit_behind_the_point_below_ten(whole: int, rest: int, divisor: int)
    requires
        divisor > 0,
        0 <= rest < divisor,
        whole >= 0,
    ensures
        whole < 10 ==> decimals_below_ten(whole * divisor + rest, divisor) == 1,
        whole >= 10 ==> decimals_below_ten(whole * divisor + rest, divisor) == 0,
{
    if whole < 10 {
        assert(whole * divisor + rest < 10 * divisor) by (nonlinear_arith)
            requires
                whole <= 9,
                rest < divisor,
                divisor > 0,
        ;
    } else {
        assert(whole * divisor >= 10 * divisor) by (nonlinear_arith)
            requires
                whole >= 10,
                divisor > 0,
        ;
    }
}

/// A count is divided by the largest of its scales that it reaches, so that something is left
/// before the point, and goes as it is where it reaches none; the letter tells the scale.
pub proof fn law_counts_reach_their_scale(count: int)
    requires
        count >= 0,
    ensures
        home_scale(count) is None <==> count < 1_000,
        panel_scale(count) is None <==> count < 1_000,
        (home_scale(count) matches Some((d, letter, digits)) ==> d <= count && digits == 1 && (
        letter == "k"@ ==> d == 1_000 && count < 1_000_000) && (letter == "M"@ ==> d
            == 1_000_000) && (letter == "k"@ || letter == "M"@)),
        (panel_scale(count) matches Some((d, letter, digits)) ==> d <= count && (letter == "k"@
            ==> d == 1_000 && count < 1_000_000) && (letter == "M"@ ==> d == 1_000_000 && count
            < 1_000_000_000) && (letter == "B"@ ==> d == 1_000_000_000) && (letter == "k"@
            || letter == "M"@ || letter == "B"@) && (count / d < 10 <==> digits == 1) && (count / d
            >= 10 <==> digits == 0)),
{
    reveal_strlit("k");
    reveal_strlit("M");
    reveal_strlit("B");
    assert("k"@[0] == 'k' && "M"@[0] == 'M' && "B"@[0] == 'B');
}

} // verus!
