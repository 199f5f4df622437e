//! Spans of time.

use vstd::prelude::*;

use crate::text::{concat3, decimal_text, zero_padded_text};
use crate::text;

verus! {

/// Nanoseconds in one second.
pub const NANOS_PER_SECOND: u32 = 1_000_000_000;

/// A span of time in whole seconds and the nanoseconds beyond them.
#[derive(Clone, Copy, Debug, PartialEq, Eq, Structural)]
pub struct Duration {
    secs: u64,
    nanos: u32,
}

/// The span in nanoseconds.
pub open spec fn total_nanos(span: Duration) -> nat {
    span.secs_part() * NANOS_PER_SECOND as nat + span.nanos_part()
}

/// Text without its trailing zeros.
pub open spec fn without_trailing_zeros(digits: Seq<char>) -> Seq<char>
    decreases digits.len(),
{
    if digits.len() > 0 && digits.last() == '0' {
        without_trailing_zeros(digits.drop_last())
    } else {
        digits
    }
}

/// A number of seconds in decimal, with a fraction only where there is one.
pub open spec fn seconds_notation(secs: nat, nanos: nat) -> Seq<char> {
    if nanos == 0 {
        text::decimal(secs)
    } else {
        text::decimal(secs) + "."@ + without_trailing_zeros(
            text::zero_padded(text::decimal(nanos), 9),
        )
    }
}

impl Duration {
    /// The whole seconds.
    pub closed spec fn secs_part(self) -> nat {
        self.secs as nat
    }

    /// The nanoseconds beyond the whole seconds.
    pub closed spec fn nanos_part(self) -> nat {
        self.nanos as nat
    }

    #[verifier::type_invariant]
    spec fn well_formed(self) -> bool {
        self.nanos < NANOS_PER_SECOND
    }

    /// A span of whole seconds.
    pub fn from_secs(secs: u64) -> (span: Self)
        ensures
            span.secs_part() == secs,
            span.nanos_part() == 0,
    {
        Duration { secs, nanos: 0 }
    }

    /// A span of milliseconds.
    pub fn from_millis(millis: u64) -> (span: Self)
        ensures
            span.secs_part() == millis / 1000,
            span.nanos_part() == (millis % 1000) * 1_000_000,
    {
        let rest: u32 = (millis % 1000) as u32;
        Duration { secs: millis / 1000, nanos: rest * 1_000_000 }
    }

    /// The whole seconds.
    pub fn as_secs(self) -> (secs: u64)
        ensures
            secs == self.secs_part(),
    {
        self.secs
    }

    /// The nanoseconds beyond the whole seconds.
    pub fn subsec_nanos(self) -> (nanos: u32)
        ensures
            nanos == self.nanos_part(),
            nanos < NANOS_PER_SECOND,
    {
        proof {
            use_type_invariant(&self);
        }
        self.nanos
    }

    /// Tells whether the span is empty.
    pub fn is_zero(self) -> (zero: bool)
        ensures
            zero == (total_nanos(self) == 0),
    {
        self.secs == 0 && self.nanos == 0
    }

    /// Tells whether this span is longer than `other`.
    pub fn is_longer_than(self, other: Duration) -> (longer: bool)
        ensures
            longer == (total_nanos(self) > total_nanos(other)),
    {
        proof {
            use_type_invariant(&self);
            use_type_invariant(&other);
        }
        self.secs > other.secs || (self.secs == other.secs && self.nanos > other.nanos)
    }

    /// The span in seconds, in decimal.
    pub fn seconds_text(self) -> (text: String)
        ensures
            text@ == seconds_notation(self.secs_part(), self.nanos_part()),
    {
        let whole = decimal_text(self.secs);
        if self.nanos == 0 {
            return whole;
        }
        let padded = zero_padded_text(decimal_text(self.nanos as u64), 9);
        let fraction = trim_zeros(padded.as_str());
        concat3(whole.as_str(), ".", fraction.as_str())
    }
}

fn trim_zeros(digits: &str) -> (trimmed: String)
    ensures
        trimmed@ == without_trailing_zeros(digits@),
{
    let all = crate::text::characters(digits);
    let mut end: usize = all.len();
    proof {
        assert(all@.take(end as int) =~= digits@);
    }
    while end > 0 && all[end - 1] == '0'
        invariant
            end <= all.len(),
            all@ == digits@,
            without_trailing_zeros(digits@) == without_trailing_zeros(all@.take(end as int)),
        decreases end,
    {
        proof {
            assert(all@.take(end as int).drop_last() =~= all@.take(end - 1));
        }
        end = end - 1;
    }
    let kept = crate::text::from_characters(&all.as_slice()[0..end]);
    proof {
        assert(kept@ =~= all@.take(end as int));
    }
    kept
}

/// Leaving out trailing zeros takes nothing but zeros away, and leaves none at the end.
pub proof fn lemma_only_trailing_zeros_are_left_out(digits: Seq<char>)
    ensures
        ({
            let kept = without_trailing_zeros(digits);
            &&& kept.len() <= digits.len()
            &&& kept == digits.take(kept.len() as int)
            &&& kept.len() > 0 ==> kept.last() != '0'
            &&& forall|i: int| kept.len() <= i < digits.len() ==> #[trigger] digits[i] == '0'
        }),
    decreases digits.len(),
{
    let kept = without_trailing_zeros(digits);
    if digits.len() > 0 && digits.last() == '0' {
        let fewer = digits.drop_last();
        lemma_only_trailing_zeros_are_left_out(fewer);
        assert(kept =~= digits.take(kept.len() as int));
        assert forall|i: int| kept.len() <= i < digits.len() implies #[trigger] digits[i]
            == '0' by {
            if i < digits.len() - 1 {
                assert(fewer[i] == digits[i]);
            }
        }
    } else {
        assert(kept =~= digits.take(kept.len() as int));
    }
}

} // verus!
