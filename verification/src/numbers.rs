use vstd::prelude::*;

verus! {

// ** Unsigned integers, as `str::parse` reads them **

pub open spec fn is_ascii_digit(c: char) -> bool {
    48 <= (c as u32) <= 57
}

pub open spec fn digit_value(c: char) -> nat {
    ((c as u32) - 48) as nat
}

pub open spec fn all_ascii_digits(s: Seq<char>) -> bool {
    forall|i: int| 0 <= i < s.len() ==> is_ascii_digit(#[trigger] s[i])
}

/// The number written by the decimal digits `s`.
pub open spec fn digits_value(s: Seq<char>) -> nat
    decreases s.len(),
{
    if s.len() == 0 {
        0
    } else {
        digits_value(s.drop_last()) * 10 + digit_value(s.last())
    }
}

/// `s` without one leading `+`.
pub open spec fn unsigned_body(s: Seq<char>) -> Seq<char> {
    if s.len() > 0 && s[0] == '+' {
        s.drop_first()
    } else {
        s
    }
}

/// What `str::parse` gives for an unsigned integer type whose largest value is `max`:
/// an optional `+`, then one or more ASCII digits, and a value that fits.
pub open spec fn spec_parse_unsigned(s: Seq<char>, max: nat) -> Option<nat> {
    let d = unsigned_body(s);
    if d.len() > 0 && all_ascii_digits(d) && digits_value(d) <= max {
        Some(digits_value(d))
    } else {
        None
    }
}

pub proof fn lemma_digits_value_prefix(s: Seq<char>, k: int)
    requires
        0 <= k <= s.len(),
        all_ascii_digits(s),
    ensures
        digits_value(s.take(k)) <= digits_value(s),
    decreases s.len(),
{
    if k < s.len() {
        assert(s.drop_last().take(k) =~= s.take(k));
        assert(all_ascii_digits(s.drop_last()));
        lemma_digits_value_prefix(s.drop_last(), k);
    } else {
        assert(s.take(k) =~= s);
    }
}

proof fn lemma_digits_value_push(s: Seq<char>, i: int)
    requires
        0 <= i < s.len(),
    ensures
        digits_value(s.take(i + 1)) == digits_value(s.take(i)) * 10 + digit_value(s[i]),
{
    assert(s.take(i + 1).drop_last() =~= s.take(i));
}

/// Reads `v[lo..hi]` as `str::parse` reads an unsigned integer no larger than `max`.
pub fn parse_unsigned(v: &Vec<char>, lo: usize, hi: usize, max: u64) -> (res: Option<u64>)
    requires
        lo <= hi <= v.len(),
    ensures
        res is None <==> spec_parse_unsigned(v@.subrange(lo as int, hi as int), max as nat) is None,
        res matches Some(x) ==> spec_parse_unsigned(v@.subrange(lo as int, hi as int), max as nat)
            == Some(x as nat),
{
    let ghost s = v@.subrange(lo as int, hi as int);
    let mut start = lo;
    if lo < hi && v[lo] == '+' {
        start = lo + 1;
    }
    let ghost d = v@.subrange(start as int, hi as int);
    proof {
        assert(d =~= unsigned_body(s));
    }
    if start == hi {
        return None;
    }
    let mut acc: u64 = 0;
    let mut i = start;
    while i < hi
        invariant
            lo <= start <= i <= hi <= v.len(),
            start < hi,
            s == v@.subrange(lo as int, hi as int),
            d == unsigned_body(s),
            d == v@.subrange(start as int, hi as int),
            all_ascii_digits(d.take(i - start)),
            acc == digits_value(d.take(i - start)),
            acc <= max,
        decreases hi - i,
    {
        let c = v[i];
        let n = c as u32;
        if n < 48 || n > 57 {
            proof {
                assert(d[i - start] == c);
                assert(!is_ascii_digit(d[i - start]));
                assert(!all_ascii_digits(d));
            }
            return None;
        }
        let dv = (n - 48) as u64;
        let next: u128 = (acc as u128) * 10 + (dv as u128);
        proof {
            lemma_digits_value_push(d, i - start);
            assert(d[i - start] == c);
            assert(all_ascii_digits(d.take(i - start + 1))) by {
                assert forall|j: int| 0 <= j < d.take(i - start + 1).len() implies is_ascii_digit(
                    #[trigger] d.take(i - start + 1)[j],
                ) by {
                    if j < i - start {
                        assert(d.take(i - start + 1)[j] == d.take(i - start)[j]);
                    }
                }
            }
        }
        if next > max as u128 {
            proof {
                if all_ascii_digits(d) {
                    lemma_digits_value_prefix(d, i - start + 1);
                    assert(digits_value(d) > max);
                }
                assert(d.len() > 0);
                assert(unsigned_body(s) == d);
            }
            return None;
        }
        acc = next as u64;
        i = i + 1;
    }
    proof {
        assert(d.take(hi - start) =~= d);
    }
    Some(acc)
}

/// `str::parse::<u32>`.
pub fn parse_u32(v: &Vec<char>) -> (res: Option<u32>)
    ensures
        res is None <==> spec_parse_unsigned(v@, u32::MAX as nat) is None,
        res matches Some(x) ==> spec_parse_unsigned(v@, u32::MAX as nat) == Some(x as nat),
{
    proof {
        assert(v@.subrange(0, v@.len() as int) =~= v@);
    }
    match parse_unsigned(v, 0, v.len(), u32::MAX as u64) {
        Some(x) => Some(x as u32),
        None => None,
    }
}

/// `str::parse::<u16>`.
pub fn parse_u16(v: &Vec<char>) -> (res: Option<u16>)
    ensures
        res is None <==> spec_parse_unsigned(v@, u16::MAX as nat) is None,
        res matches Some(x) ==> spec_parse_unsigned(v@, u16::MAX as nat) == Some(x as nat),
{
    proof {
        assert(v@.subrange(0, v@.len() as int) =~= v@);
    }
    match parse_unsigned(v, 0, v.len(), u16::MAX as u64) {
        Some(x) => Some(x as u16),
        None => None,
    }
}

// ** Decimal amounts **

/// A non-negative decimal number: `mantissa / 10^scale`, with at most 18 fractional digits.
///
/// It is always canonical: no trailing fractional zero is kept, so equal numbers have equal representations.
#[derive(Copy, Clone, Debug, PartialEq, Eq, Structural)]
pub struct Decimal {
    mantissa: u64,
    scale: u32,
}

pub open spec fn pow10(n: nat) -> nat
    decreases n,
{
    if n == 0 {
        1
    } else {
        10 * pow10((n - 1) as nat)
    }
}

impl Decimal {
    #[verifier::type_invariant]
    spec fn well_formed(self) -> bool {
        &&& self.scale <= 18
        &&& self.scale == 0 || self.mantissa % 10 != 0
    }

    pub closed spec fn spec_mantissa(self) -> nat {
        self.mantissa as nat
    }

    pub closed spec fn spec_scale(self) -> nat {
        self.scale as nat
    }

    /// The whole number `n`, as a spec value.
    pub closed spec fn spec_whole(n: u64) -> Decimal {
        Decimal { mantissa: n, scale: 0 }
    }

    /// The whole number `n`.
    pub fn whole(n: u64) -> (res: Decimal)
        ensures
            res == Decimal::spec_whole(n),
            res.spec_mantissa() == n,
            res.spec_scale() == 0,
    {
        Decimal { mantissa: n, scale: 0 }
    }

    /// The number `mantissa / 10^scale` in canonical form; `None` when that form needs more than 18
    /// fractional digits.
    pub fn new(mantissa: u64, scale: u32) -> (res: Option<Decimal>)
        ensures
            res is Some <==> normalize(mantissa as nat, scale as nat).1 <= 18,
            res matches Some(d) ==> (d.spec_mantissa(), d.spec_scale()) == normalize(
                mantissa as nat,
                scale as nat,
            ),
    {
        let (m, s) = normalize_parts(mantissa, scale);
        if s > 18 {
            None
        } else {
            Some(Decimal { mantissa: m, scale: s })
        }
    }

    pub fn mantissa(&self) -> (res: u64)
        ensures
            res == self.spec_mantissa(),
            self.spec_scale() == 0 || res % 10 != 0,
    {
        proof {
            use_type_invariant(self);
        }
        self.mantissa
    }

    pub fn scale(&self) -> (res: u32)
        ensures
            res == self.spec_scale(),
            res <= 18,
            res == 0 || self.spec_mantissa() % 10 != 0,
    {
        proof {
            use_type_invariant(self);
        }
        self.scale
    }
}

/// Strip trailing fractional zeros from `mantissa / 10^scale`.
pub open spec fn normalize(mantissa: nat, scale: nat) -> (nat, nat)
    decreases scale,
{
    if scale > 0 && mantissa % 10 == 0 {
        normalize(mantissa / 10, (scale - 1) as nat)
    } else {
        (mantissa, scale)
    }
}

/// The index of the first `c` in `s`, or `s.len()` when there is none.
pub open spec fn first_index_of(s: Seq<char>, c: char) -> nat
    decreases s.len(),
{
    if s.len() == 0 {
        0
    } else if s[0] == c {
        0
    } else {
        1 + first_index_of(s.drop_first(), c)
    }
}

pub proof fn lemma_first_index_of(s: Seq<char>, c: char)
    ensures
        first_index_of(s, c) <= s.len(),
        forall|j: int| 0 <= j < first_index_of(s, c) ==> s[j] != c,
        first_index_of(s, c) < s.len() ==> s[first_index_of(s, c) as int] == c,
    decreases s.len(),
{
    if s.len() > 0 && s[0] != c {
        lemma_first_index_of(s.drop_first(), c);
        assert forall|j: int| 0 <= j < first_index_of(s, c) implies s[j] != c by {
            if j > 0 {
                assert(s[j] == s.drop_first()[j - 1]);
            }
        }
    }
}

/// The largest number of fractional digits that this library reads.
pub open spec fn max_scale() -> nat {
    18
}

/// What this library reads as a decimal number: an optional `+`, digits, and at most one `.` followed
/// by digits, with at least one digit in all and at most 18 after the `.`.
/// The value is returned in canonical form.
pub open spec fn spec_parse_decimal(s: Seq<char>) -> Option<(nat, nat)> {
    let d = unsigned_body(s);
    let p = first_index_of(d, '.');
    let int_part = d.take(p as int);
    let frac = if p < d.len() { d.skip(p as int + 1) } else { Seq::<char>::empty() };
    let all = int_part + frac;
    if all.len() > 0 && all_ascii_digits(all) && frac.len() <= max_scale() && digits_value(all)
        <= u64::MAX {
        Some(normalize(digits_value(all), frac.len()))
    } else {
        None
    }
}

proof fn lemma_normalize(m: nat, s: nat)
    ensures
        normalize(m, s).0 <= m,
        normalize(m, s).1 <= s,
        normalize(m, s).1 == 0 || normalize(m, s).0 % 10 != 0,
        normalize(m, s).0 * pow10(s) == m * pow10(normalize(m, s).1),
    decreases s,
{
    if s > 0 && m % 10 == 0 {
        lemma_normalize(m / 10, (s - 1) as nat);
        let (m2, s2) = normalize(m / 10, (s - 1) as nat);
        assert(pow10(s) == 10 * pow10((s - 1) as nat));
        assert(m == (m / 10) * 10);
        assert(m2 * pow10((s - 1) as nat) == (m / 10) * pow10(s2));
        assert(m2 * pow10(s) == m2 * (10 * pow10((s - 1) as nat)));
        assert(m2 * (10 * pow10((s - 1) as nat)) == 10 * (m2 * pow10((s - 1) as nat))) by (nonlinear_arith);
        assert(m * pow10(s2) == ((m / 10) * 10) * pow10(s2));
        assert(((m / 10) * 10) * pow10(s2) == 10 * ((m / 10) * pow10(s2))) by (nonlinear_arith);
    }
}

/// Canonical form of `mantissa / 10^scale`, as (mantissa, scale).
fn normalize_parts(mantissa: u64, scale: u32) -> (res: (u64, u32))
    ensures
        normalize(mantissa as nat, scale as nat) == (res.0 as nat, res.1 as nat),
        res.1 == 0 || res.0 % 10 != 0,
        res.1 <= scale,
{
    proof {
        lemma_normalize(mantissa as nat, scale as nat);
    }
    let mut m = mantissa;
    let mut s = scale;
    while s > 0 && m % 10 == 0
        invariant
            normalize(m as nat, s as nat) == normalize(mantissa as nat, scale as nat),
            s <= scale,
        decreases s,
    {
        m = m / 10;
        s = s - 1;
    }
    (m, s)
}

proof fn lemma_parts(d: Seq<char>, all: Seq<char>, int_part: Seq<char>, frac: Seq<char>)
    requires
        int_part == d.take(first_index_of(d, '.') as int),
        frac == (if first_index_of(d, '.') < d.len() {
            d.skip(first_index_of(d, '.') as int + 1)
        } else {
            Seq::<char>::empty()
        }),
        all == int_part + frac,
    ensures
        ({
            let p = first_index_of(d, '.');
            let ip = d.take(p as int);
            let fr = if p < d.len() { d.skip(p as int + 1) } else { Seq::<char>::empty() };
            ip + fr == all && fr == frac
        }),
{
}

/// Reads `v[lo..hi]` as a decimal number (see [spec_parse_decimal]).
pub fn parse_decimal(v: &Vec<char>, lo: usize, hi: usize) -> (res: Option<Decimal>)
    requires
        lo <= hi <= v.len(),
    ensures
        res is None <==> spec_parse_decimal(v@.subrange(lo as int, hi as int)) is None,
        res matches Some(d) ==> spec_parse_decimal(v@.subrange(lo as int, hi as int)) == Some(
            (d.spec_mantissa(), d.spec_scale()),
        ),
{
    let ghost s = v@.subrange(lo as int, hi as int);
    let mut start = lo;
    if lo < hi && v[lo] == '+' {
        start = lo + 1;
    }
    let ghost d = v@.subrange(start as int, hi as int);
    proof {
        assert(d =~= unsigned_body(s));
        lemma_first_index_of(d, '.');
    }
    // Find the first '.'
    let mut p = start;
    while p < hi && v[p] != '.'
        invariant
            start <= p <= hi <= v.len(),
            d == v@.subrange(start as int, hi as int),
            forall|j: int| start <= j < p ==> v@[j] != '.',
        decreases hi - p,
    {
        p = p + 1;
    }
    proof {
        assert(first_index_of(d, '.') == p - start) by {
            if first_index_of(d, '.') < p - start {
                assert(d[first_index_of(d, '.') as int] == v@[start + first_index_of(d, '.')]);
            }
            if first_index_of(d, '.') > p - start {
                assert(d[p - start] == v@[p as int]);
            }
        }
    }
    let frac_lo = if p < hi { p + 1 } else { hi };
    let ghost int_part = d.take(p - start);
    let ghost frac = if p < hi { d.skip(p - start + 1) } else { Seq::<char>::empty() };
    let ghost all = int_part + frac;
    proof {
        assert(int_part =~= v@.subrange(start as int, p as int));
        assert(frac =~= v@.subrange(frac_lo as int, hi as int));
    }
    let frac_len = hi - frac_lo;
    let total = (p - start) + frac_len;
    if total == 0 || frac_len > 18 {
        return None;
    }
    // Accumulate the digits of the integer part followed by those of the fraction.
    let mut acc: u64 = 0;
    let mut k: usize = 0;
    while k < total
        invariant
            start <= p <= hi <= v.len(),
            frac_lo <= hi,
            frac_len == hi - frac_lo,
            total == (p - start) + frac_len,
            all == int_part + frac,
            int_part == v@.subrange(start as int, p as int),
            frac == v@.subrange(frac_lo as int, hi as int),
            all.len() == total,
            k <= total,
            all_ascii_digits(all.take(k as int)),
            acc == digits_value(all.take(k as int)),
            s == v@.subrange(lo as int, hi as int),
            d == unsigned_body(s),
            d == v@.subrange(start as int, hi as int),
            first_index_of(d, '.') == p - start,
            int_part == d.take(p - start),
            frac == (if p < hi { d.skip(p - start + 1) } else { Seq::<char>::empty() }),
            frac_len <= 18,
        decreases total - k,
    {
        let c = if k < p - start { v[start + k] } else { v[frac_lo + (k - (p - start))] };
        proof {
            assert(all[k as int] == c);
        }
        let n = c as u32;
        if n < 48 || n > 57 {
            proof {
                assert(!is_ascii_digit(all[k as int]));
                assert(!all_ascii_digits(all));
                assert(unsigned_body(s) == d);
                lemma_parts(d, all, int_part, frac);
            }
            return None;
        }
        let next: u128 = (acc as u128) * 10 + ((n - 48) as u128);
        proof {
            lemma_digits_value_push(all, k as int);
            assert(all_ascii_digits(all.take(k + 1))) by {
                assert forall|j: int| 0 <= j < all.take(k + 1).len() implies is_ascii_digit(
                    #[trigger] all.take(k + 1)[j],
                ) by {
                    if j < k {
                        assert(all.take(k + 1)[j] == all.take(k as int)[j]);
                    }
                }
            }
        }
        if next > u64::MAX as u128 {
            proof {
                if all_ascii_digits(all) {
                    lemma_digits_value_prefix(all, k + 1);
                    assert(digits_value(all) > u64::MAX);
                }
                assert(unsigned_body(s) == d);
                lemma_parts(d, all, int_part, frac);
            }
            return None;
        }
        acc = next as u64;
        k = k + 1;
    }
    proof {
        assert(all.take(total as int) =~= all);
        lemma_parts(d, all, int_part, frac);
    }
    let (m, sc) = normalize_parts(acc, frac_len as u32);
    Some(Decimal { mantissa: m, scale: sc })
}

/// `n / d`, rounded to the nearest whole number with halves rounded up.
pub open spec fn round_div(n: nat, d: nat) -> nat
    recommends
        d > 0,
{
    (2 * n + d) / (2 * d)
}

} // verus!

verus! {

/// The decimal digits of `n`, most significant first, without leading zeros ("0" for zero).
pub open spec fn decimal_digits(n: nat) -> Seq<char>
    decreases n,
{
    if n < 10 {
        seq![(n + 48) as char]
    } else {
        decimal_digits(n / 10).push(((n % 10) + 48) as char)
    }
}

/// `n` written in decimal, as `ToString` writes an unsigned integer.
pub fn decimal_string(n: u64) -> (res: String)
    ensures
        res@ == decimal_digits(n as nat),
    decreases n,
{
    if n < 10 {
        let mut s = String::new();
        crate::text::push_digit(&mut s, n as u8);
        proof {
            assert(s@ =~= seq![(n + 48) as char]);
        }
        s
    } else {
        let mut s = decimal_string(n / 10);
        crate::text::push_digit(&mut s, (n % 10) as u8);
        s
    }
}

} // verus!
