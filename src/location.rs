//! Genomic locations: a chromosome and an interval on it.

use vstd::prelude::*;

use crate::loctogene::GenesError;
use crate::text::{nat_str, nat_to_string};

verus! {

/// Whether a character is a decimal digit.
pub open spec fn is_digit(c: char) -> bool {
    '0' <= c <= '9'
}

/// The value of a run of decimal digits.
pub open spec fn digits_value(s: Seq<char>) -> nat
    decreases s.len(),
{
    if s.len() == 0 {
        0
    } else {
        digits_value(s.drop_last()) * 10 + ((s.last() as int - '0' as int) as nat)
    }
}

/// Whether `s` is a decimal number that fits in a `u32`.
pub open spec fn is_u32_text(s: Seq<char>) -> bool {
    &&& s.len() > 0
    &&& forall|i: int| 0 <= i < s.len() ==> is_digit(#[trigger] s[i])
    &&& digits_value(s) <= u32::MAX
}

/// Whether `t` splits as `chr:start-end` at the first `:` (position `p`) and
/// the first `-` after it (position `q`), with a non-empty chromosome and two
/// numbers that fit in a `u32`.
pub open spec fn splits_at(t: Seq<char>, p: int, q: int) -> bool {
    &&& 0 < p < q < t.len()
    &&& t[p] == ':'
    &&& t[q] == '-'
    &&& forall|i: int| 0 <= i < p ==> #[trigger] t[i] != ':'
    &&& forall|i: int| p < i < q ==> #[trigger] t[i] != '-'
    &&& is_u32_text(t.subrange(p + 1, q))
    &&& is_u32_text(t.subrange(q + 1, t.len() as int))
}

/// Whether `t` is the text of a well-formed location.
pub open spec fn is_location_text(t: Seq<char>) -> bool {
    exists|p: int, q: int|
        splits_at(t, p, q) && digits_value(t.subrange(p + 1, q)) <= digits_value(
            t.subrange(q + 1, t.len() as int),
        )
}

proof fn lemma_digits_value_prefix(s: Seq<char>, k: int)
    requires
        0 <= k <= s.len(),
        forall|i: int| 0 <= i < s.len() ==> is_digit(#[trigger] s[i]),
    ensures
        digits_value(s.subrange(0, k)) <= digits_value(s),
    decreases s.len(),
{
    if k < s.len() {
        let d = s.drop_last();
        assert forall|i: int| 0 <= i < d.len() implies is_digit(#[trigger] d[i]) by {
            assert(d[i] == s[i]);
        }
        lemma_digits_value_prefix(d, k);
        assert(d.subrange(0, k) =~= s.subrange(0, k));
    } else {
        assert(s.subrange(0, k) =~= s);
    }
}

/// The number written in `t[from..to]`, when it is a decimal number that fits
/// in a `u32`.
fn parse_u32(t: &str, from: usize, to: usize) -> (r: Option<u32>)
    requires
        from <= to <= t@.len(),
    ensures
        r is Some <==> is_u32_text(t@.subrange(from as int, to as int)),
        r matches Some(v) ==> v == digits_value(t@.subrange(from as int, to as int)),
{
    let ghost s = t@.subrange(from as int, to as int);
    if from == to {
        return None;
    }
    let mut v: u64 = 0;
    let mut i: usize = from;
    assert(s.subrange(0, 0) =~= Seq::<char>::empty());
    while i < to
        invariant
            from <= i <= to <= t@.len(),
            s == t@.subrange(from as int, to as int),
            forall|j: int| 0 <= j < i - from ==> is_digit(#[trigger] s[j]),
            v == digits_value(s.subrange(0, i - from)),
            v <= u32::MAX,
        decreases to - i,
    {
        let c = t.get_char(i);
        if c < '0' || c > '9' {
            assert(s[i - from] == c);
            return None;
        }
        let d: u64 = (c as u32 - '0' as u32) as u64;
        assert(s.subrange(0, i - from + 1).drop_last() =~= s.subrange(0, i - from));
        assert(s[i - from] == c);
        v = v * 10 + d;
        if v > u32::MAX as u64 {
            proof {
                assert forall|j: int| 0 <= j < s.len() && j != i - from implies is_digit(
                    #[trigger] s[j],
                ) || j > i - from by {}
                if is_u32_text(s) {
                    lemma_digits_value_prefix(s, i - from + 1);
                }
            }
            return None;
        }
        i = i + 1;
    }
    assert(s.subrange(0, to - from) =~= s);
    Some(v as u32)
}

/// An interval `start..=end` on chromosome `chr`.
#[derive(Debug, Clone)]
pub struct Location {
    pub chr: String,
    pub start: u32,
    pub end: u32,
}

impl Location {
    /// A location is well formed when it does not end before it starts.
    pub open spec fn wf(&self) -> bool {
        self.start <= self.end
    }

    /// The midpoint, rounded down.
    pub open spec fn spec_mid(&self) -> int {
        (self.start as int + self.end as int) / 2
    }

    /// The text form `chr:start-end`.
    pub open spec fn spec_text(&self) -> Seq<char> {
        self.chr@ + seq![':'] + nat_str(self.start as nat) + seq!['-'] + nat_str(self.end as nat)
    }

    /// A location on `chr` from `start` to `end`; an input error when `end`
    /// lies before `start`.
    pub fn new(chr: &str, start: u32, end: u32) -> (r: Result<Location, GenesError>)
        ensures
            r is Ok <==> start <= end,
            r matches Ok(l) ==> l.chr@ == chr@ && l.start == start && l.end == end,
            r matches Err(e) ==> e is InputError,
    {
        if start > end {
            Err(GenesError::InputError(String::from_str("location ends before it starts")))
        } else {
            Ok(Location { chr: String::from_str(chr), start, end })
        }
    }

    /// Reads a location written `chr:start-end`: the chromosome runs to the
    /// first `:`, the start to the first `-` after it. An input error when the
    /// text has another shape, a number does not fit in a `u32`, or the
    /// location ends before it starts.
    pub fn parse(text: &str) -> (r: Result<Location, GenesError>)
        ensures
            r is Ok <==> is_location_text(text@),
            r matches Ok(l) ==> l.wf() && exists|p: int, q: int|
                splits_at(text@, p, q) && l.chr@ == text@.subrange(0, p) && l.start
                    == digits_value(text@.subrange(p + 1, q)) && l.end == digits_value(
                    text@.subrange(q + 1, text@.len() as int),
                ),
            r matches Err(e) ==> e is InputError,
    {
        let n = text.unicode_len();
        let mut p: usize = 0;
        while p < n && text.get_char(p) != ':'
            invariant
                n == text@.len(),
                p <= n,
                forall|i: int| 0 <= i < p ==> #[trigger] text@[i] != ':',
            decreases n - p,
        {
            p = p + 1;
        }
        if p == 0 || p >= n {
            proof {
                assert(!is_location_text(text@)) by {
                    if is_location_text(text@) {
                        let (pp, qq) = choose|pp: int, qq: int|
                            splits_at(text@, pp, qq) && digits_value(text@.subrange(pp + 1, qq))
                                <= digits_value(text@.subrange(qq + 1, text@.len() as int));
                        assert(text@[pp] == ':');
                        assert(text@[qq] == '-');
                    }
                }
            }
            return Err(GenesError::InputError(String::from_str("location is not chr:start-end")));
        }
        let mut q: usize = p + 1;
        while q < n && text.get_char(q) != '-'
            invariant
                n == text@.len(),
                p < q,
                q <= n,
                forall|i: int| p < i < q ==> #[trigger] text@[i] != '-',
            decreases n - q,
        {
            q = q + 1;
        }
        if q >= n {
            proof {
                assert(!is_location_text(text@)) by {
                    if is_location_text(text@) {
                        let (pp, qq) = choose|pp: int, qq: int|
                            splits_at(text@, pp, qq) && digits_value(text@.subrange(pp + 1, qq))
                                <= digits_value(text@.subrange(qq + 1, text@.len() as int));
                        assert(text@[pp] == ':');
                        assert(text@[qq] == '-');
                    }
                }
            }
            return Err(GenesError::InputError(String::from_str("location is not chr:start-end")));
        }
        let start = parse_u32(text, p + 1, q);
        let end = parse_u32(text, q + 1, n);
        proof {
            assert forall|pp: int, qq: int| splits_at(text@, pp, qq) implies pp == p && qq == q by {
                assert(text@[pp] == ':');
                assert(text@[qq] == '-');
            }
        }
        match (start, end) {
            (Some(s), Some(e)) => {
                if s > e {
                    return Err(GenesError::InputError(String::from_str("location ends before it starts")));
                }
                let chr = text.substring_char(0, p);
                let l = Location { chr: String::from_str(chr), start: s, end: e };
                assert(splits_at(text@, p as int, q as int));
                Ok(l)
            },
            _ => Err(GenesError::InputError(String::from_str("location is not chr:start-end"))),
        }
    }

    /// The midpoint, rounded down.
    pub fn mid(&self) -> (r: u32)
        ensures
            r as int == self.spec_mid(),
    {
        ((self.start as u64 + self.end as u64) / 2) as u32
    }

    /// The text form `chr:start-end`.
    pub fn to_string(&self) -> (r: String)
        ensures
            r@ == self.spec_text(),
    {
        proof {
            reveal_strlit(":");
            reveal_strlit("-");
        }
        let s = nat_to_string(self.start as u64);
        let e = nat_to_string(self.end as u64);
        let r = self.chr.clone().concat(":").concat(s.as_str()).concat("-").concat(e.as_str());
        assert(r@ =~= self.spec_text());
        r
    }
}

} // verus!
