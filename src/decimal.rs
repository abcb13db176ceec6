//! Exact fixed-point amounts with four fractional digits, and the rule that
//! turns an amount token of statement text into one.
use vstd::prelude::*;
use vstd::string::StrSliceExecFns;
use crate::error::StatementError;
use crate::text::{chars_of, digit_value, is_digit, is_digit_char, is_space, is_space_char};

verus! {

/// Units per whole currency unit: amounts carry four fractional digits.
pub const SCALE: i128 = 10000;

/// The largest whole part whose scaled value fits in an `i128`.
pub const WHOLE_LIMIT: u128 = 17014118346046923173168730371588410;

/// A signed fixed-point amount, counted in ten-thousandths.
#[derive(Clone, Copy, Debug, PartialEq, Eq, Structural)]
pub struct Decimal {
    pub units: i128,
}

pub open spec fn fits_i128(x: int) -> bool {
    i128::MIN <= x <= i128::MAX
}

pub open spec fn pow10(n: nat) -> int
    decreases n,
{
    if n == 0 {
        1
    } else {
        10 * pow10((n - 1) as nat)
    }
}

/// A character that carries no value in an amount token: a thousands
/// separator, the currency sign, or whitespace.
pub open spec fn is_ignorable(c: char) -> bool {
    c == ',' || c == '$' || is_space(c)
}

/// The token with its ignorable characters taken out.
pub open spec fn clean_token(s: Seq<char>) -> Seq<char>
    decreases s.len(),
{
    if s.len() == 0 {
        s
    } else if is_ignorable(s.last()) {
        clean_token(s.drop_last())
    } else {
        clean_token(s.drop_last()).push(s.last())
    }
}

pub open spec fn all_digits(s: Seq<char>) -> bool {
    forall|i: int| 0 <= i < s.len() ==> is_digit(#[trigger] s[i])
}

/// The value of a run of decimal digits.
pub open spec fn digits_value(s: Seq<char>) -> int
    decreases s.len(),
{
    if s.len() == 0 {
        0
    } else {
        digits_value(s.drop_last()) * 10 + digit_value(s.last())
    }
}

/// Index of the first `.` in `t` at or after `i`, or `t.len()` if none.
pub open spec fn point_from(t: Seq<char>, i: int) -> int
    decreases t.len() - i,
{
    if i >= t.len() {
        t.len() as int
    } else if t[i] == '.' {
        i
    } else {
        point_from(t, i + 1)
    }
}

/// The value in ten-thousandths of a numeral: one or more digits, then
/// optionally a point and one to four digits.
pub open spec fn numeral_units(t: Seq<char>) -> Option<int> {
    let p = point_from(t, 0);
    let whole = t.subrange(0, p);
    let frac = if p < t.len() {
        t.subrange(p + 1, t.len() as int)
    } else {
        Seq::<char>::empty()
    };
    if whole.len() >= 1 && all_digits(whole) && all_digits(frac) && (p == t.len() || 1
        <= frac.len() <= 4) {
        Some(digits_value(whole) * 10000 + digits_value(frac) * pow10((4 - frac.len()) as nat))
    } else {
        None
    }
}

/// What reading a numeral gives: its amount, or why there is none.
pub open spec fn units_outcome(u: Option<int>) -> Result<Decimal, StatementError> {
    match u {
        None => Err(StatementError::MalformedAmount),
        Some(v) => if v <= i128::MAX {
            Ok(Decimal { units: v as i128 })
        } else {
            Err(StatementError::AmountOutOfRange)
        },
    }
}

/// What reading a raw amount token gives.
pub open spec fn amount_outcome(raw: Seq<char>) -> Result<Decimal, StatementError> {
    units_outcome(numeral_units(clean_token(raw)))
}

proof fn lemma_digits_value_nonneg(s: Seq<char>)
    requires
        all_digits(s),
    ensures
        digits_value(s) >= 0,
    decreases s.len(),
{
    if s.len() > 0 {
        lemma_digits_value_nonneg(s.drop_last());
    }
}

/// The value of a digit run grows with the prefix taken.
proof fn lemma_digits_prefix_monotone(s: Seq<char>, i: int, j: int)
    requires
        all_digits(s),
        0 <= i <= j <= s.len(),
    ensures
        digits_value(s.subrange(0, i)) <= digits_value(s.subrange(0, j)),
    decreases j - i,
{
    if i < j {
        lemma_digits_prefix_monotone(s, i, j - 1);
        let pj = s.subrange(0, j);
        assert(pj.drop_last() =~= s.subrange(0, j - 1));
        lemma_digits_value_nonneg(s.subrange(0, j - 1));
        assert(all_digits(s.subrange(0, j - 1)));
    }
}

/// Every amount that reading a token gives is non-negative.
pub proof fn lemma_amount_non_negative(raw: Seq<char>)
    ensures
        amount_outcome(raw) is Ok ==> amount_outcome(raw)->Ok_0.units >= 0,
{
    let t = clean_token(raw);
    let p = point_from(t, 0);
    let whole = t.subrange(0, p);
    let frac = if p < t.len() {
        t.subrange(p + 1, t.len() as int)
    } else {
        Seq::<char>::empty()
    };
    if numeral_units(t) is Some {
        lemma_digits_value_nonneg(whole);
        lemma_digits_value_nonneg(frac);
        lemma_pow10_step((4 - frac.len()) as nat);
        let w = digits_value(whole);
        let f = digits_value(frac);
        let q = pow10((4 - frac.len()) as nat);
        assert(w * 10000 + f * q >= 0) by (nonlinear_arith)
            requires
                w >= 0,
                f >= 0,
                q >= 1,
        ;
    }
}

impl Decimal {
    pub open spec fn is_non_negative(self) -> bool {
        self.units >= 0
    }

    pub fn zero() -> (r: Decimal)
        ensures
            r.units == 0,
    {
        Decimal { units: 0 }
    }

    pub fn from_units(units: i128) -> (r: Decimal)
        ensures
            r.units == units,
    {
        Decimal { units }
    }

    /// The exact sum, or `None` where it does not fit.
    pub fn checked_add(self, other: Decimal) -> (r: Option<Decimal>)
        ensures
            fits_i128(self.units + other.units) ==> r == Some(
                Decimal { units: (self.units + other.units) as i128 },
            ),
            !fits_i128(self.units + other.units) ==> r is None,
    {
        match self.units.checked_add(other.units) {
            Some(u) => Some(Decimal { units: u }),
            None => None,
        }
    }

    /// The exact difference, or `None` where it does not fit.
    pub fn checked_sub(self, other: Decimal) -> (r: Option<Decimal>)
        ensures
            fits_i128(self.units - other.units) ==> r == Some(
                Decimal { units: (self.units - other.units) as i128 },
            ),
            !fits_i128(self.units - other.units) ==> r is None,
    {
        match self.units.checked_sub(other.units) {
            Some(u) => Some(Decimal { units: u }),
            None => None,
        }
    }
}

/// The characters of `s[lo..hi]` that carry value.
pub fn clean_range(s: &Vec<char>, lo: usize, hi: usize) -> (r: Vec<char>)
    requires
        lo <= hi <= s.len(),
    ensures
        r@ == clean_token(s@.subrange(lo as int, hi as int)),
{
    let mut out: Vec<char> = Vec::new();
    let mut i = lo;
    while i < hi
        invariant
            lo <= i <= hi <= s.len(),
            out@ == clean_token(s@.subrange(lo as int, i as int)),
        decreases hi - i,
    {
        let c = s[i];
        proof {
            assert(s@.subrange(lo as int, i + 1).drop_last() =~= s@.subrange(lo as int, i as int));
        }
        if !(c == ',' || c == '$' || is_space_char(c)) {
            out.push(c);
        }
        i = i + 1;
    }
    out
}

proof fn lemma_pow10_table()
    ensures
        pow10(0) == 1,
        pow10(1) == 10,
        pow10(2) == 100,
        pow10(3) == 1000,
        pow10(4) == 10000,
{
    reveal_with_fuel(pow10, 5);
}

/// The whole part `t[0..p]` of a numeral, or `None` once it exceeds the
/// largest whole part that four fractional digits leave room for.
fn whole_units(t: &Vec<char>, p: usize) -> (r: Option<u128>)
    requires
        p <= t.len(),
        all_digits(t@.subrange(0, p as int)),
    ensures
        match r {
            Some(v) => v == digits_value(t@.subrange(0, p as int)) && v <= WHOLE_LIMIT,
            None => digits_value(t@.subrange(0, p as int)) > WHOLE_LIMIT,
        },
{
    let ghost whole = t@.subrange(0, p as int);
    let mut v: u128 = 0;
    let mut j: usize = 0;
    while j < p
        invariant
            j <= p <= t.len(),
            whole == t@.subrange(0, p as int),
            all_digits(whole),
            v as int == digits_value(whole.subrange(0, j as int)),
            v <= WHOLE_LIMIT,
        decreases p - j,
    {
        proof {
            assert(whole.subrange(0, j + 1).drop_last() =~= whole.subrange(0, j as int));
            assert(whole[j as int] == t@[j as int]);
            assert(is_digit(whole[j as int]));
        }
        let d = (t[j] as u32 - '0' as u32) as u128;
        v = v * 10 + d;
        if v > WHOLE_LIMIT {
            proof {
                lemma_digits_prefix_monotone(whole, j + 1, p as int);
                assert(whole.subrange(0, p as int) =~= whole);
            }
            return None;
        }
        j = j + 1;
    }
    assert(whole.subrange(0, p as int) =~= whole);
    Some(v)
}

/// The fractional digits `t[from..]`, scaled to four places.
fn fraction_units(t: &Vec<char>, from: usize) -> (f: u128)
    requires
        from <= t.len() <= from + 4,
        all_digits(t@.subrange(from as int, t.len() as int)),
    ensures
        f == digits_value(t@.subrange(from as int, t.len() as int)) * pow10(
            (4 - (t.len() - from)) as nat,
        ),
        f < 10000,
{
    proof {
        lemma_pow10_table();
    }
    let ghost frac = t@.subrange(from as int, t.len() as int);
    let n = t.len();
    let mut f: u128 = 0;
    let mut k: usize = 0;
    while from + k < n
        invariant
            from <= n == t.len() <= from + 4,
            frac == t@.subrange(from as int, n as int),
            all_digits(frac),
            0 <= k <= frac.len(),
            f as int == digits_value(frac.subrange(0, k as int)),
            f < pow10(k as nat),
            pow10(0) == 1 && pow10(1) == 10 && pow10(2) == 100 && pow10(3) == 1000 && pow10(4)
                == 10000,
        decreases n - from - k,
    {
        proof {
            assert(frac.subrange(0, k + 1).drop_last() =~= frac.subrange(0, k as int));
            assert(frac[k as int] == t@[from + k]);
            assert(is_digit(frac[k as int]));
        }
        let d = (t[from + k] as u32 - '0' as u32) as u128;
        f = f * 10 + d;
        k = k + 1;
    }
    assert(frac.subrange(0, k as int) =~= frac);
    let ghost dv = digits_value(frac);
    assert(f as int == dv * pow10(0));
    let mut m: usize = k;
    while m < 4
        invariant
            k <= m <= 4,
            k == frac.len(),
            f as int == dv * pow10((m - k) as nat),
            f < pow10(m as nat),
            pow10(0) == 1 && pow10(1) == 10 && pow10(2) == 100 && pow10(3) == 1000 && pow10(4)
                == 10000,
        decreases 4 - m,
    {
        proof {
            lemma_pow10_step((m - k) as nat);
            let b = pow10((m - k) as nat);
            assert(dv * b * 10 == dv * (10 * b)) by (nonlinear_arith);
        }
        f = f * 10;
        m = m + 1;
    }
    f
}

proof fn lemma_pow10_step(n: nat)
    ensures
        pow10(n + 1) == 10 * pow10(n),
        pow10(n) >= 1,
    decreases n,
{
    if n > 0 {
        lemma_pow10_step((n - 1) as nat);
    }
}

/// Reads a numeral (digits, then optionally a point and one to four digits)
/// as an amount.
pub fn parse_numeral(t: &Vec<char>) -> (r: Result<Decimal, StatementError>)
    ensures
        r == units_outcome(numeral_units(t@)),
{
    let n = t.len();
    let mut p: usize = 0;
    while p < n && t[p] != '.'
        invariant
            p <= n == t.len(),
            point_from(t@, 0) == point_from(t@, p as int),
        decreases n - p,
    {
        p = p + 1;
    }
    assert(p == point_from(t@, 0));
    let ghost whole = t@.subrange(0, p as int);
    let ghost frac = if p < n {
        t@.subrange(p + 1, n as int)
    } else {
        Seq::<char>::empty()
    };
    if p == 0 {
        return Err(StatementError::MalformedAmount);
    }
    if p < n && (n - p - 1 < 1 || n - p - 1 > 4) {
        return Err(StatementError::MalformedAmount);
    }
    let mut i: usize = 0;
    while i < n
        invariant
            i <= n == t.len(),
            0 < p <= n,
            p == point_from(t@, 0),
            p < n ==> 1 <= n - p - 1 <= 4,
            whole == t@.subrange(0, p as int),
            frac == (if p < n {
                t@.subrange(p + 1, n as int)
            } else {
                Seq::<char>::empty()
            }),
            forall|k: int| 0 <= k < i && k != p ==> is_digit(#[trigger] t@[k]),
        decreases n - i,
    {
        if i != p && !is_digit_char(t[i]) {
            proof {
                if i < p {
                    assert(!is_digit(whole[i as int]));
                } else {
                    assert(!is_digit(frac[i - p - 1]));
                }
            }
            return Err(StatementError::MalformedAmount);
        }
        i = i + 1;
    }
    assert(all_digits(whole)) by {
        assert forall|k: int| 0 <= k < whole.len() implies is_digit(#[trigger] whole[k]) by {
            assert(whole[k] == t@[k]);
        }
    }
    assert(all_digits(frac)) by {
        assert forall|k: int| 0 <= k < frac.len() implies is_digit(#[trigger] frac[k]) by {
            assert(frac[k] == t@[p + 1 + k]);
        }
    }
    let fu: u128 = if p < n {
        fraction_units(t, p + 1)
    } else {
        proof {
            lemma_pow10_table();
        }
        0
    };
    assert(fu as int == digits_value(frac) * pow10((4 - frac.len()) as nat));
    match whole_units(t, p) {
        None => {
            proof {
                lemma_digits_value_nonneg(frac);
                lemma_pow10_step((4 - frac.len()) as nat);
                let w = digits_value(whole);
                assert(w * 10000 >= (WHOLE_LIMIT + 1) * 10000) by (nonlinear_arith)
                    requires
                        w >= WHOLE_LIMIT + 1,
                ;
            }
            Err(StatementError::AmountOutOfRange)
        },
        Some(v) => {
            let units: u128 = v * 10000 + fu;
            if units > i128::MAX as u128 {
                Err(StatementError::AmountOutOfRange)
            } else {
                Ok(Decimal { units: units as i128 })
            }
        },
    }
}

/// Takes the ignorable characters out of `raw` and reads what is left as
/// an amount.
pub fn clean_and_parse(raw: &mut String) -> (r: Result<Decimal, StatementError>)
    ensures
        final(raw)@ == clean_token(old(raw)@),
        r == amount_outcome(old(raw)@),
{
    let src: &str = raw.as_str();
    let chars = chars_of(src);
    let mut out = String::new();
    let mut i: usize = 0;
    while i < chars.len()
        invariant
            i <= chars.len(),
            chars@ == src@,
            out@ == clean_token(src@.subrange(0, i as int)),
        decreases chars.len() - i,
    {
        let c = chars[i];
        proof {
            assert(src@.subrange(0, i + 1).drop_last() =~= src@.subrange(0, i as int));
        }
        if !(c == ',' || c == '$' || is_space_char(c)) {
            let one = src.substring_char(i, i + 1);
            proof {
                assert(one@ =~= seq![c]);
            }
            out.append(one);
        }
        i = i + 1;
    }
    proof {
        assert(src@.subrange(0, chars.len() as int) =~= src@);
    }
    *raw = out;
    let cleaned = chars_of(raw.as_str());
    parse_numeral(&cleaned)
}

/// Reads an amount token of statement text: thousands separators, the
/// currency sign and whitespace are dropped, and what is left must be a
/// numeral with at most four fractional digits.
pub fn parse_amount(raw: &str) -> (r: Result<Decimal, StatementError>)
    ensures
        r == amount_outcome(raw@),
{
    let chars = chars_of(raw);
    let cleaned = clean_range(&chars, 0, chars.len());
    proof {
        assert(chars@.subrange(0, chars@.len() as int) =~= raw@);
    }
    parse_numeral(&cleaned)
}

} // verus!
