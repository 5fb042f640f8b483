//! A percentage kept exact: a part out of a whole, or the bits of a number that
//! was stored earlier. Turning it into a binary fraction is left to the caller.

use vstd::prelude::*;
use vstd::arithmetic::div_mod::{lemma_div_is_ordered, lemma_div_multiples_vanish};

verus! {

/// What a [`Percentage`] stands for.
pub enum PercentageView {
    /// `part / whole * 100`, with `whole > 0`.
    Ratio { part: nat, whole: nat },
    /// The IEEE 754 bit pattern of a double-precision percentage.
    Stored { bits: u64 },
}

/// The share that `part` is of `whole`; nothing of nothing is zero.
pub open spec fn share_of(part: nat, whole: nat) -> PercentageView {
    if whole == 0 {
        PercentageView::Ratio { part: 0, whole: 1 }
    } else {
        PercentageView::Ratio { part, whole }
    }
}

/// Hundredths of a percent in `part / whole * 100`, rounded down.
pub open spec fn hundredths_of(part: nat, whole: nat) -> nat
    recommends
        whole > 0,
{
    (part * 10000) / whole
}

impl PercentageView {
    /// The percentage is a ratio that lies between 0 and 100 percent: its
    /// part is no larger than its whole.
    pub open spec fn within_bounds(self) -> bool {
        match self {
            PercentageView::Ratio { part, whole } => whole > 0 && 0 <= 100 * part <= 100 * whole,
            PercentageView::Stored { bits } => false,
        }
    }

    /// Hundredths of a percent, rounded down; 0 for a number that was stored.
    pub open spec fn hundredths(self) -> nat {
        match self {
            PercentageView::Ratio { part, whole } => hundredths_of(part, whole),
            PercentageView::Stored { bits } => 0,
        }
    }
}

/// A percentage between 0 and 100 percent has at most 10000 hundredths, and
/// none where its part is 0.
pub proof fn lemma_share_within_bounds(percent: PercentageView)
    requires
        percent.within_bounds(),
    ensures
        0 <= percent.hundredths() <= 10000,
        (percent matches PercentageView::Ratio { part, whole } && part <= whole && (part == 0
            ==> percent.hundredths() == 0)),
{
    match percent {
        PercentageView::Ratio { part, whole } => {
            assert(part <= whole);
            assert(part * 10000 <= whole * 10000) by (nonlinear_arith)
                requires
                    part <= whole,
            ;
            lemma_div_is_ordered((part * 10000) as int, (whole * 10000) as int, whole as int);
            assert(whole * 10000 == 10000 * whole) by (nonlinear_arith);
            lemma_div_multiples_vanish(10000, whole as int);
            assert(0 * 10000 == 0);
        },
        PercentageView::Stored { bits } => {},
    }
}

#[derive(Clone, Copy, Debug, PartialEq, Eq)]
enum Share {
    Ratio { part: usize, whole: usize },
    Stored { bits: u64 },
}

/// A percentage, exact.
#[derive(Clone, Copy, Debug, PartialEq, Eq)]
pub struct Percentage {
    share: Share,
}

impl View for Percentage {
    type V = PercentageView;

    closed spec fn view(&self) -> PercentageView {
        match self.share {
            Share::Ratio { part, whole } => PercentageView::Ratio {
                part: part as nat,
                whole: whole as nat,
            },
            Share::Stored { bits } => PercentageView::Stored { bits },
        }
    }
}

impl Percentage {
    #[verifier::type_invariant]
    spec fn well_formed(&self) -> bool {
        match self.share {
            Share::Ratio { part, whole } => whole > 0,
            Share::Stored { bits } => true,
        }
    }

    /// Zero percent.
    pub fn zero() -> (p: Percentage)
        ensures
            p@ == share_of(0, 0),
    {
        Percentage { share: Share::Ratio { part: 0, whole: 1 } }
    }

    /// `part` out of `whole`, as a percentage; zero where `whole` is zero.
    pub fn ratio(part: usize, whole: usize) -> (p: Percentage)
        ensures
            p@ == share_of(part as nat, whole as nat),
    {
        if whole == 0 {
            Percentage { share: Share::Ratio { part: 0, whole: 1 } }
        } else {
            Percentage { share: Share::Ratio { part, whole } }
        }
    }

    /// A percentage that was stored as a double, given by its bits.
    pub fn from_bits(bits: u64) -> (p: Percentage)
        ensures
            p@ == (PercentageView::Stored { bits }),
    {
        Percentage { share: Share::Stored { bits } }
    }

    /// The part and the whole, where this is a ratio; the whole is never zero.
    pub fn as_ratio(&self) -> (parts: Option<(usize, usize)>)
        ensures
            match parts {
                Some((part, whole)) => whole > 0 && self@ == (PercentageView::Ratio {
                    part: part as nat,
                    whole: whole as nat,
                }),
                None => self@ is Stored,
            },
    {
        proof {
            use_type_invariant(self);
        }
        match self.share {
            Share::Ratio { part, whole } => Some((part, whole)),
            Share::Stored { bits } => None,
        }
    }

    /// The stored bits, where this is no ratio.
    pub fn as_bits(&self) -> (bits: Option<u64>)
        ensures
            match bits {
                Some(b) => self@ == (PercentageView::Stored { bits: b }),
                None => self@ is Ratio,
            },
    {
        match self.share {
            Share::Ratio { part, whole } => None,
            Share::Stored { bits } => Some(bits),
        }
    }

    /// Hundredths of a percent, rounded down, where this is a ratio. There are
    /// at most 10000 where the percentage lies between 0 and 100 percent.
    pub fn hundredths(&self) -> (h: Option<u128>)
        ensures
            match self@ {
                PercentageView::Ratio { part, whole } => whole > 0 && h == Some(
                    self@.hundredths() as u128,
                ),
                PercentageView::Stored { bits } => h.is_none(),
            },
            self@.within_bounds() ==> (h matches Some(n) && n <= 10000),
    {
        proof {
            use_type_invariant(self);
        }
        match self.share {
            Share::Ratio { part, whole } => {
                proof {
                    if part <= whole {
                        lemma_share_within_bounds(self@);
                    }
                    assert(part * 10000 <= usize::MAX * 10000) by (nonlinear_arith)
                        requires
                            part <= usize::MAX,
                    ;
                    lemma_div_is_ordered(0, (part * 10000) as int, whole as int);
                    assert((part * 10000) / (whole as int) <= part * 10000) by (nonlinear_arith)
                        requires
                            whole > 0,
                            part >= 0,
                    ;
                }
                let scaled: u128 = (part as u128) * 10000;
                Some(scaled / (whole as u128))
            },
            Share::Stored { bits } => None,
        }
    }
}

} // verus!
