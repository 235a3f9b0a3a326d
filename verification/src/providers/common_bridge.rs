use vstd::prelude::*;

use crate::numbers::{
    normalize, parse_decimal, parse_unsigned, pow10, round_div, spec_parse_decimal,
    spec_parse_unsigned, Decimal,
};
use crate::patterns::{
    captures_relaxed, captures_view, first_matching_pattern, regex_captures_relaxed,
    regex_set_first_match, strings_view,
};
use crate::providers::models::sale_types::{
    NumEuroOff, NumEuroPrice, NumForPrice, NumPercentOff, NumPlusNumFree, NumthPercentOff, SaleType,
    sale_type_valid,
};
use crate::providers::models::{CentPrice, SaleValidity, Unit, UnitPrice, UnitQuantity};
use crate::text::{
    chars_of, contains_char, count_leading_digits, eq_lit, leading_digits, replace_char,
    replace_chars, split_whitespace, tokens,
};

verus! {

// ** Units **

/// The unit that a unit text such as `kg`, `l` or `stuks` names.
pub open spec fn spec_parse_unit_component(s: Seq<char>) -> Option<Unit> {
    if s == "l"@ || s == "L"@ || s == "liter"@ {
        Some(Unit::Liter)
    } else if s == "ml"@ {
        Some(Unit::MilliLiter)
    } else if s == "kg"@ || s == "kilo"@ || s == "Kilo"@ || s == "Kg"@ || s == "KG"@ {
        Some(Unit::KiloGram)
    } else if s == "g"@ || s == "G"@ || s == "gram"@ {
        Some(Unit::Gram)
    } else if s == "stuk"@ || s == "stuks"@ || s == "piece"@ || s == "pieces"@ {
        Some(Unit::Piece)
    } else {
        None
    }
}

/// Read a unit text such as `l` or `kg`; `None` for any other text.
pub fn parse_unit_component_chars(v: &Vec<char>) -> (res: Option<Unit>)
    ensures
        res == spec_parse_unit_component(v@),
{
    if eq_lit(v, "l") || eq_lit(v, "L") || eq_lit(v, "liter") {
        Some(Unit::Liter)
    } else if eq_lit(v, "ml") {
        Some(Unit::MilliLiter)
    } else if eq_lit(v, "kg") || eq_lit(v, "kilo") || eq_lit(v, "Kilo") || eq_lit(v, "Kg") || eq_lit(
        v,
        "KG",
    ) {
        Some(Unit::KiloGram)
    } else if eq_lit(v, "g") || eq_lit(v, "G") || eq_lit(v, "gram") {
        Some(Unit::Gram)
    } else if eq_lit(v, "stuk") || eq_lit(v, "stuks") || eq_lit(v, "piece") || eq_lit(v, "pieces") {
        Some(Unit::Piece)
    } else {
        None
    }
}

/// Try to parse the provided unit in the format `l` or `kg` as a [Unit]; invalid input gives `None`.
pub fn parse_unit_component(unit: &str) -> (res: Option<Unit>)
    ensures
        res == spec_parse_unit_component(unit@),
{
    let v = chars_of(unit);
    parse_unit_component_chars(&v)
}

// ** Quantities **

/// A `(quantity, unit)` pair read from the words `toks`, in the form `55 g` (two words) or `500ml` (one word).
pub open spec fn spec_parse_quantity_unit(toks: Seq<Seq<char>>) -> Option<((nat, nat), Unit)> {
    if toks.len() == 0 {
        None
    } else {
        let q = replace_char(toks[0], ',', '.');
        match spec_parse_decimal(q) {
            Some(d) => if toks.len() >= 2 {
                match spec_parse_unit_component(toks[1]) {
                    Some(u) => Some((d, u)),
                    None => None,
                }
            } else {
                None
            },
            None => {
                let n = leading_digits(q);
                if n == 0 {
                    None
                } else {
                    match (spec_parse_decimal(q.take(n as int)), spec_parse_unit_component(
                        q.skip(n as int),
                    )) {
                        (Some(d), Some(u)) => Some((d, u)),
                        _ => None,
                    }
                }
            },
        }
    }
}

/// `q * m` rounded to a whole number (halves away from zero), when it fits in a `u64`.
pub open spec fn spec_round_product(q: (nat, nat), m: (nat, nat)) -> Option<nat> {
    let r = round_div(q.0 * m.0, pow10(q.1 + m.1));
    if r <= u64::MAX {
        Some(r)
    } else {
        None
    }
}

/// A [UnitQuantity] read from text of the form `500 g`, `10 x 55 g`, `1,36 kg` or `1 liter`, as
/// (unit, (mantissa, scale)).
pub open spec fn spec_parse_quantity(s: Seq<char>) -> Option<(Unit, (nat, nat))> {
    let toks = tokens(s);
    if s.contains('x') {
        if toks.len() < 2 {
            None
        } else {
            match spec_parse_quantity_unit(toks.skip(2)) {
                Some((q, u)) => match spec_parse_decimal(toks[0]) {
                    Some(m) => match spec_round_product(q, m) {
                        Some(a) => Some((u, (a, 0))),
                        None => None,
                    },
                    None => None,
                },
                None => None,
            }
        }
    } else {
        match spec_parse_quantity_unit(toks) {
            Some((q, u)) => Some((u, q)),
            None => None,
        }
    }
}

/// The view of a quantity.
pub open spec fn quantity_view(q: UnitQuantity) -> (Unit, (nat, nat)) {
    (q.unit, (q.amount.spec_mantissa(), q.amount.spec_scale()))
}

/// Read a `(quantity, unit)` pair from `toks[from..]`.
fn parse_quantity_unit(toks: &Vec<Vec<char>>, from: usize) -> (res: Option<(Decimal, Unit)>)
    requires
        from <= toks.len(),
    ensures
        ({
            let spec_toks = toks@.map_values(|w: Vec<char>| w@).skip(from as int);
            &&& res is None <==> spec_parse_quantity_unit(spec_toks) is None
            &&& res matches Some((d, u)) ==> spec_parse_quantity_unit(spec_toks) == Some(
                ((d.spec_mantissa(), d.spec_scale()), u),
            )
        }),
{
    let ghost spec_toks = toks@.map_values(|w: Vec<char>| w@).skip(from as int);
    if from >= toks.len() {
        return None;
    }
    proof {
        assert(spec_toks[0] == toks@[from as int]@);
    }
    let q = replace_chars(&toks[from], ',', '.');
    match parse_decimal(&q, 0, q.len()) {
        Some(d) => {
            proof {
                assert(q@.subrange(0, q@.len() as int) =~= q@);
            }
            if from + 1 < toks.len() {
                proof {
                    assert(spec_toks[1] == toks@[from + 1]@);
                }
                match parse_unit_component_chars(&toks[from + 1]) {
                    Some(u) => Some((d, u)),
                    None => None,
                }
            } else {
                None
            }
        },
        None => {
            proof {
                assert(q@.subrange(0, q@.len() as int) =~= q@);
            }
            let n = count_leading_digits(&q);
            if n == 0 {
                return None;
            }
            let unit_part = crate::text::sub_chars(&q, n, q.len());
            proof {
                assert(q@.subrange(0, n as int) =~= q@.take(n as int));
                assert(unit_part@ =~= q@.skip(n as int));
            }
            match parse_decimal(&q, 0, n) {
                Some(d) => match parse_unit_component_chars(&unit_part) {
                    Some(u) => Some((d, u)),
                    None => None,
                },
                None => None,
            }
        },
    }
}


proof fn lemma_round_div(n: nat, d: nat)
    requires
        d > 0,
    ensures
        round_div(n, d) == n / d + (if 2 * (n % d) >= d { 1nat } else { 0nat }),
{
    let q = n / d;
    let r = n % d;
    assert(n == q * d + r && 0 <= r < d) by (nonlinear_arith)
        requires
            d > 0,
            q == n / d,
            r == n % d,
    ;
    if 2 * r >= d {
        assert((2 * n + d) / (2 * d) == q + 1) by (nonlinear_arith)
            requires
                n == q * d + r,
                0 <= r < d,
                2 * r >= d,
                d > 0,
        ;
    } else {
        assert((2 * n + d) / (2 * d) == q) by (nonlinear_arith)
            requires
                n == q * d + r,
                0 <= r < d,
                2 * r < d,
                d > 0,
        ;
    }
}

/// `n / d` rounded to the nearest whole number, halves up.
pub fn round_div_u128(n: u128, d: u128) -> (res: u128)
    requires
        d > 0,
    ensures
        res == round_div(n as nat, d as nat),
{
    proof {
        lemma_round_div(n as nat, d as nat);
    }
    let q = n / d;
    let r = n % d;
    if r >= d - r {
        assert(q + 1 <= u128::MAX) by (nonlinear_arith)
            requires
                q == n / d,
                d > 1 || r == 0,
                r >= d - r,
                r < d,
                d > 0,
        {
            if d == 1 {
                assert(r == 0);
            }
        }
        q + 1
    } else {
        q
    }
}

pub proof fn lemma_pow10_positive(i: nat)
    ensures
        1 <= pow10(i),
    decreases i,
{
    if i > 0 {
        lemma_pow10_positive((i - 1) as nat);
    }
}

pub proof fn lemma_pow10_monotonic(i: nat, j: nat)
    requires
        i <= j,
    ensures
        1 <= pow10(i) <= pow10(j),
    decreases j,
{
    lemma_pow10_positive(i);
    if j > i {
        lemma_pow10_monotonic(i, (j - 1) as nat);
    }
}

/// `10^n`.
pub fn pow10_u128(n: u32) -> (res: u128)
    requires
        n <= 37,
    ensures
        res == pow10(n as nat),
{
    proof {
        reveal_with_fuel(pow10, 38);
        assert(pow10(37) == 10000000000000000000000000000000000000nat);
    }
    let mut acc: u128 = 1;
    let mut i: u32 = 0;
    while i < n
        invariant
            i <= n <= 37,
            acc == pow10(i as nat),
            pow10(37) == 10000000000000000000000000000000000000nat,
        decreases n - i,
    {
        proof {
            lemma_pow10_monotonic((i + 1) as nat, 37);
        }
        acc = acc * 10;
        i = i + 1;
    }
    acc
}

/// `q * m`, both read as decimals, rounded to a whole number.
fn round_product(q: Decimal, m: Decimal) -> (res: Option<u64>)
    ensures
        res is None <==> spec_round_product(
            (q.spec_mantissa(), q.spec_scale()),
            (m.spec_mantissa(), m.spec_scale()),
        ) is None,
        res matches Some(a) ==> spec_round_product(
            (q.spec_mantissa(), q.spec_scale()),
            (m.spec_mantissa(), m.spec_scale()),
        ) == Some(a as nat),
{
    let qm = q.mantissa();
    let qs = q.scale();
    let mm = m.mantissa();
    let ms = m.scale();
    assert((qm as nat) * (mm as nat) <= 340282366920938463463374607431768211455nat) by (nonlinear_arith)
        requires
            qm <= 18446744073709551615nat,
            mm <= 18446744073709551615nat,
    ;
    let n: u128 = (qm as u128) * (mm as u128);
    let d = pow10_u128(qs + ms);
    proof {
        lemma_pow10_monotonic(0, (qs + ms) as nat);
    }
    let r = round_div_u128(n, d);
    if r > u64::MAX as u128 {
        None
    } else {
        Some(r as u64)
    }
}

/// Parse a [UnitQuantity] of the form `500 g` or `10 x 55 g` or `1 liter`.
///
/// Numbers are read as decimals (with `,` as well as `.` before the fraction in the quantity); a
/// multiplied quantity is rounded to a whole number.
pub fn parse_quantity(quantity: &str) -> (res: Option<UnitQuantity>)
    ensures
        res is None <==> spec_parse_quantity(quantity@) is None,
        res matches Some(q) ==> spec_parse_quantity(quantity@) == Some(quantity_view(q)),
{
    let v = chars_of(quantity);
    let toks = split_whitespace(&v);
    let ghost spec_toks = toks@.map_values(|w: Vec<char>| w@);
    proof {
        assert(spec_toks.skip(0) =~= spec_toks);
    }
    if contains_char(&v, 'x') {
        if toks.len() < 2 {
            return None;
        }
        let (q, u) = match parse_quantity_unit(&toks, 2) {
            Some(p) => p,
            None => return None,
        };
        proof {
            assert(spec_toks[0] == toks@[0]@);
            assert(toks@[0]@.subrange(0, toks@[0]@.len() as int) =~= toks@[0]@);
        }
        let m = match parse_decimal(&toks[0], 0, toks[0].len()) {
            Some(m) => m,
            None => return None,
        };
        match round_product(q, m) {
            Some(a) => {
                let amount = Decimal::whole(a);
                Some(UnitQuantity { unit: u, amount })
            },
            None => None,
        }
    } else {
        match parse_quantity_unit(&toks, 0) {
            Some((q, u)) => Some(UnitQuantity { unit: u, amount: q }),
            None => None,
        }
    }
}

// ** Unit prices **

/// The unit price, as (unit, cents), that a quantity and a display price give: the price of one
/// kilogram, liter or piece, rounded to whole cents (halves up). Grams become kilograms and milliliters
/// liters. A zero quantity gives `u32::MAX` cents, or 0 when the price is 0 too; a price too large for a
/// `u32` becomes `u32::MAX`.
pub open spec fn spec_derive_unit_price(q: (Unit, (nat, nat)), price: nat) -> (Unit, nat) {
    let (k, unit) = match q.0 {
        Unit::Gram => (1000nat, Unit::KiloGram),
        Unit::MilliLiter => (1000nat, Unit::Liter),
        u => (1nat, u),
    };
    let m = q.1.0;
    let s = q.1.1;
    let p = if m == 0 {
        if price == 0 {
            0
        } else {
            u32::MAX as nat
        }
    } else {
        let r = round_div(price * pow10(s) * k, m);
        if r > u32::MAX {
            u32::MAX as nat
        } else {
            r
        }
    };
    (unit, p)
}

/// Try to derive a unit price from the unit quantity and display price.
///
/// Preferably one would first use a listed unit price, this function is available as a fallback.
pub fn derive_unit_price(unit_quantity: &UnitQuantity, display_price: CentPrice) -> (res: Option<
    UnitPrice,
>)
    ensures
        res matches Some(p) && (p.unit, p.price as nat) == spec_derive_unit_price(
            quantity_view(*unit_quantity),
            display_price as nat,
        ),
{
    let (k, unit): (u128, Unit) = match unit_quantity.unit {
        Unit::Gram => (1000, Unit::KiloGram),
        Unit::MilliLiter => (1000, Unit::Liter),
        u => (1, u),
    };
    let m = unit_quantity.amount.mantissa();
    let s = unit_quantity.amount.scale();
    let price: u32 = if m == 0 {
        if display_price == 0 {
            0
        } else {
            u32::MAX
        }
    } else {
        let p10 = pow10_u128(s);
        proof {
            lemma_pow10_monotonic(s as nat, 18);
            reveal_with_fuel(pow10, 19);
            assert(pow10(18) == 1000000000000000000nat);
            assert((display_price as nat) * pow10(s as nat) <= 4294967295nat * 1000000000000000000nat)
                by (nonlinear_arith)
                requires
                    display_price <= 4294967295nat,
                    pow10(s as nat) <= 1000000000000000000nat,
            ;
        }
        let n: u128 = (display_price as u128) * p10 * k;
        let r = round_div_u128(n, m as u128);
        if r > u32::MAX as u128 {
            u32::MAX
        } else {
            r as u32
        }
    };
    Some(UnitPrice { unit, price })
}


/// A unit price is the price of one liter, kilogram or piece: a quantity in milliliters (grams) gives
/// the same unit price, per liter (kilogram), as the same amount written in liters (kilograms), and a
/// whole number `m` of milliliters, grams or pieces at price `p` gives `p * 1000 / m` per liter or
/// kilogram and `p / m` per piece, rounded to the nearest cent.
pub proof fn lemma_unit_price_per_unit(m: nat, s: nat, price: nat)
    ensures
        spec_derive_unit_price((Unit::MilliLiter, (m, s)), price) == spec_derive_unit_price(
            (Unit::Liter, (m, s + 3)),
            price,
        ),
        spec_derive_unit_price((Unit::Gram, (m, s)), price) == spec_derive_unit_price(
            (Unit::KiloGram, (m, s + 3)),
            price,
        ),
        m > 0 && (2 * price * 1000 + m) / (2 * m) <= u32::MAX ==> spec_derive_unit_price(
            (Unit::MilliLiter, (m, 0)),
            price,
        ) == (Unit::Liter, (2 * price * 1000 + m) / (2 * m)),
        m > 0 && (2 * price * 1000 + m) / (2 * m) <= u32::MAX ==> spec_derive_unit_price(
            (Unit::Gram, (m, 0)),
            price,
        ) == (Unit::KiloGram, (2 * price * 1000 + m) / (2 * m)),
        m > 0 && (2 * price + m) / (2 * m) <= u32::MAX ==> spec_derive_unit_price((Unit::Piece, (m, 0)), price)
            == (Unit::Piece, (2 * price + m) / (2 * m)),
{
    assert(pow10(s + 3) == 1000 * pow10(s)) by {
        assert(pow10(s + 1) == 10 * pow10(s));
        assert(pow10(s + 2) == 10 * pow10(s + 1));
        assert(pow10(s + 3) == 10 * pow10(s + 2));
    }
    assert(price * pow10(s) * 1000 == price * pow10(s + 3) * 1) by (nonlinear_arith)
        requires
            pow10(s + 3) == 1000 * pow10(s),
    ;
    assert(pow10(0) == 1);
    assert(price * pow10(0) * 1000 == price * 1000);
    assert(price * pow10(0) * 1 == price);
}

// ** Prices **

/// `integer_part` euros and `fractional_part` cents, in cents.
pub fn parse_int_fract_price(integer_part: CentPrice, fractional_part: CentPrice) -> (res: CentPrice)
    requires
        integer_part * 100 + fractional_part <= u32::MAX,
    ensures
        res == integer_part * 100 + fractional_part,
{
    (integer_part * 100) + fractional_part
}

// ** Sale labels **

/// The sale label patterns, tried in this order; the first that matches anywhere in a label decides.
pub open spec fn sale_patterns() -> Seq<Seq<char>> {
    seq![
        // `1 + 2 gratis`
        r#"(\d+) \s* \+ \s* (\d+) \s* gratis"#@,
        // `2e gratis`
        r#"(\d+) \s* e \s* gratis"#@,
        // `50% korting`
        r#"(\d+) \s* % \s* korting"#@,
        // `2e halve prijs`
        r#"(\d+) \s* e \s* halve \s* prijs"#@,
        // `3 voor €4,50`
        r#"(\d+) \s* voor \s* €? \s* (\d+)(?:[,.](\d+))?"#@,
        // `1 euro korting` | `1.50 euro korting`
        r#"(\d+)(?:[,.](\d+))? \s* euro \s* korting"#@,
        // `€1.00 korting`
        r#"€ \s* (\d+)(?:[,.](\d+))? \s* korting"#@,
        // `NU €4.00`
        r#"NU \s* €(\d+)(?:[,.](\d+))?"#@,
    ]
}

fn sale_pattern_strings() -> (res: Vec<String>)
    ensures
        strings_view(res@) == sale_patterns(),
{
    let mut res: Vec<String> = Vec::new();
    res.push(String::from_str(r#"(\d+) \s* \+ \s* (\d+) \s* gratis"#));
    res.push(String::from_str(r#"(\d+) \s* e \s* gratis"#));
    res.push(String::from_str(r#"(\d+) \s* % \s* korting"#));
    res.push(String::from_str(r#"(\d+) \s* e \s* halve \s* prijs"#));
    res.push(String::from_str(r#"(\d+) \s* voor \s* €? \s* (\d+)(?:[,.](\d+))?"#));
    res.push(String::from_str(r#"(\d+)(?:[,.](\d+))? \s* euro \s* korting"#));
    res.push(String::from_str(r#"€ \s* (\d+)(?:[,.](\d+))? \s* korting"#));
    res.push(String::from_str(r#"NU \s* €(\d+)(?:[,.](\d+))?"#));
    proof {
        assert(strings_view(res@) =~= sale_patterns());
    }
    res
}

/// Capture group `i`, `None` when the match has no such group or the group did not take part.
pub open spec fn cap(caps: Seq<Option<Seq<char>>>, i: int) -> Option<Seq<char>> {
    if 0 <= i < caps.len() {
        caps[i]
    } else {
        None
    }
}

/// A group read as a number no larger than `max`.
pub open spec fn cap_number(c: Option<Seq<char>>, max: nat) -> Option<nat> {
    match c {
        Some(s) => spec_parse_unsigned(s, max),
        None => None,
    }
}

/// A group read as a positive `u16`.
pub open spec fn cap_nonzero_u16(c: Option<Seq<char>>) -> Option<nat> {
    match cap_number(c, u16::MAX as nat) {
        Some(n) => if n > 0 {
            Some(n)
        } else {
            None
        },
        None => None,
    }
}

/// The cents of an optional fraction group: 0 when absent or unreadable.
pub open spec fn cap_fraction(c: Option<Seq<char>>) -> nat {
    match cap_number(c, u32::MAX as nat) {
        Some(n) => n,
        None => 0,
    }
}

/// Whether the euro amount in groups `i` (whole euros) and `f` (fraction) is readable but too large
/// for a `u32` count of cents.
pub open spec fn price_overflows(caps: Seq<Option<Seq<char>>>, i: int, f: int) -> bool {
    match cap_number(cap(caps, i), u32::MAX as nat) {
        Some(n) => n * 100 + cap_fraction(cap(caps, f)) > u32::MAX,
        None => false,
    }
}

/// Whether the sale that pattern `idx` matched names an amount of cents too large for a `u32`.
pub open spec fn sale_match_overflows(idx: nat, caps: Seq<Option<Seq<char>>>) -> bool {
    if idx == 4 {
        cap_nonzero_u16(cap(caps, 1)) is Some && price_overflows(caps, 2, 3)
    } else if idx == 5 || idx == 6 || idx == 7 {
        price_overflows(caps, 1, 2)
    } else {
        false
    }
}

/// The sale that pattern `idx` describes, given the groups it captured.
pub open spec fn spec_sale_type_from_match(idx: nat, caps: Seq<Option<Seq<char>>>) -> Option<SaleType> {
    if idx == 0 {
        match (cap_nonzero_u16(cap(caps, 1)), cap_nonzero_u16(cap(caps, 2))) {
            (Some(r), Some(f)) => Some(
                SaleType::NumPlusNumFree(NumPlusNumFree { required: r as u16, free: f as u16 }),
            ),
            _ => None,
        }
    } else if idx == 1 {
        match cap_number(cap(caps, 1), u16::MAX as nat) {
            Some(r) => if r >= 2 {
                Some(SaleType::NumPlusNumFree(NumPlusNumFree { required: (r - 1) as u16, free: 1 }))
            } else {
                None
            },
            None => None,
        }
    } else if idx == 2 {
        match cap_nonzero_u16(cap(caps, 1)) {
            Some(p) => if p <= 100 {
                Some(SaleType::NumPercentOff(NumPercentOff::spec_from(p as u16)))
            } else {
                None
            },
            None => None,
        }
    } else if idx == 3 {
        match cap_nonzero_u16(cap(caps, 1)) {
            Some(r) => Some(
                SaleType::NumthPercentOff(NumthPercentOff { required: r as u16, last_percent_off: 50 }),
            ),
            None => None,
        }
    } else if idx == 4 {
        match cap_nonzero_u16(cap(caps, 1)) {
            Some(r) => match cap_number(cap(caps, 2), u32::MAX as nat) {
                Some(n) => Some(
                    SaleType::NumForPrice(
                        NumForPrice {
                            required: r as u16,
                            price: (n * 100 + cap_fraction(cap(caps, 3))) as u32,
                        },
                    ),
                ),
                None => None,
            },
            None => None,
        }
    } else if idx == 5 || idx == 6 {
        match cap_number(cap(caps, 1), u32::MAX as nat) {
            Some(n) => Some(
                SaleType::NumEuroOff(
                    NumEuroOff { price_off: (n * 100 + cap_fraction(cap(caps, 2))) as u32 },
                ),
            ),
            None => None,
        }
    } else if idx == 7 {
        match cap_number(cap(caps, 1), u32::MAX as nat) {
            Some(n) => Some(
                SaleType::NumEuroPrice(
                    NumEuroPrice { price: (n * 100 + cap_fraction(cap(caps, 2))) as u32 },
                ),
            ),
            None => None,
        }
    } else {
        None
    }
}

/// What [parse_sale_label] gives for a label: the sale of the first pattern that matches, read from its
/// groups; `None` when no pattern matches, a group is unreadable, or the amount does not fit in cents.
pub open spec fn spec_parse_sale_label(label: Seq<char>) -> Option<SaleType> {
    match regex_set_first_match(sale_patterns(), label) {
        Some(idx) => if idx < 8 {
            match regex_captures_relaxed(sale_patterns()[idx as int], label) {
                Some(caps) => if sale_match_overflows(idx, caps) {
                    None
                } else {
                    spec_sale_type_from_match(idx, caps)
                },
                None => None,
            }
        } else {
            None
        },
        None => None,
    }
}

/// The characters of group `i`.
fn cap_chars(caps: &Vec<Option<String>>, i: usize) -> (res: Option<Vec<char>>)
    ensures
        res matches Some(v) ==> cap(captures_view(caps@), i as int) == Some(v@),
        res is None ==> cap(captures_view(caps@), i as int) is None,
{
    if i < caps.len() {
        match &caps[i] {
            Some(s) => Some(chars_of(s.as_str())),
            None => None,
        }
    } else {
        None
    }
}

fn cap_number_exec(caps: &Vec<Option<String>>, i: usize, max: u64) -> (res: Option<u64>)
    ensures
        res matches Some(n) ==> cap_number(cap(captures_view(caps@), i as int), max as nat) == Some(
            n as nat,
        ),
        res is None ==> cap_number(cap(captures_view(caps@), i as int), max as nat) is None,
{
    match cap_chars(caps, i) {
        Some(v) => {
            proof {
                assert(v@.subrange(0, v@.len() as int) =~= v@);
            }
            parse_unsigned(&v, 0, v.len(), max)
        },
        None => None,
    }
}

fn cap_nonzero_u16_exec(caps: &Vec<Option<String>>, i: usize) -> (res: Option<u16>)
    ensures
        res matches Some(n) ==> cap_nonzero_u16(cap(captures_view(caps@), i as int)) == Some(
            n as nat,
        ),
        res is None ==> cap_nonzero_u16(cap(captures_view(caps@), i as int)) is None,
{
    match cap_number_exec(caps, i, u16::MAX as u64) {
        Some(n) => if n > 0 {
            Some(n as u16)
        } else {
            None
        },
        None => None,
    }
}

fn cap_fraction_exec(caps: &Vec<Option<String>>, i: usize) -> (res: u32)
    ensures
        res == cap_fraction(cap(captures_view(caps@), i as int)),
{
    match cap_number_exec(caps, i, u32::MAX as u64) {
        Some(n) => n as u32,
        None => 0,
    }
}

/// The sale that sale pattern `idx` describes, given the groups it captured (group 0 first).
pub fn sale_type_from_match(idx: usize, caps: &Vec<Option<String>>) -> (res: Option<SaleType>)
    requires
        idx < 8,
        !sale_match_overflows(idx as nat, captures_view(caps@)),
    ensures
        res == spec_sale_type_from_match(idx as nat, captures_view(caps@)),
{
    let ghost c = captures_view(caps@);
    if idx == 0 {
        let required = match cap_nonzero_u16_exec(caps, 1) {
            Some(r) => r,
            None => return None,
        };
        let free = match cap_nonzero_u16_exec(caps, 2) {
            Some(f) => f,
            None => return None,
        };
        Some(SaleType::NumPlusNumFree(NumPlusNumFree { required, free }))
    } else if idx == 1 {
        let required = match cap_number_exec(caps, 1, u16::MAX as u64) {
            Some(r) => r,
            None => return None,
        };
        if required < 2 {
            return None;
        }
        Some(SaleType::NumPlusNumFree(NumPlusNumFree { required: (required - 1) as u16, free: 1 }))
    } else if idx == 2 {
        let percent_off = match cap_nonzero_u16_exec(caps, 1) {
            Some(p) => p,
            None => return None,
        };
        match NumPercentOff::new(percent_off) {
            Some(p) => Some(SaleType::NumPercentOff(p)),
            None => None,
        }
    } else if idx == 3 {
        let required = match cap_nonzero_u16_exec(caps, 1) {
            Some(r) => r,
            None => return None,
        };
        Some(SaleType::NumthPercentOff(NumthPercentOff { required, last_percent_off: 50 }))
    } else if idx == 4 {
        let required = match cap_nonzero_u16_exec(caps, 1) {
            Some(r) => r,
            None => return None,
        };
        let integer_part = match cap_number_exec(caps, 2, u32::MAX as u64) {
            Some(n) => n as u32,
            None => return None,
        };
        let price = parse_int_fract_price(integer_part, cap_fraction_exec(caps, 3));
        Some(SaleType::NumForPrice(NumForPrice { required, price }))
    } else if idx == 5 || idx == 6 {
        let integer_part = match cap_number_exec(caps, 1, u32::MAX as u64) {
            Some(n) => n as u32,
            None => return None,
        };
        let price = parse_int_fract_price(integer_part, cap_fraction_exec(caps, 2));
        Some(SaleType::NumEuroOff(NumEuroOff { price_off: price }))
    } else {
        let integer_part = match cap_number_exec(caps, 1, u32::MAX as u64) {
            Some(n) => n as u32,
            None => return None,
        };
        let price = parse_int_fract_price(integer_part, cap_fraction_exec(caps, 2));
        Some(SaleType::NumEuroPrice(NumEuroPrice { price }))
    }
}

/// Whether the sale that pattern `idx` matched names an amount of cents too large for a `u32`.
fn sale_match_overflows_exec(idx: usize, caps: &Vec<Option<String>>) -> (res: bool)
    ensures
        res == sale_match_overflows(idx as nat, captures_view(caps@)),
{
    let (i, f) = if idx == 4 {
        if cap_nonzero_u16_exec(caps, 1).is_none() {
            return false;
        }
        (2usize, 3usize)
    } else if idx == 5 || idx == 6 || idx == 7 {
        (1usize, 2usize)
    } else {
        return false;
    };
    match cap_number_exec(caps, i, u32::MAX as u64) {
        Some(n) => (n as u128) * 100 + (cap_fraction_exec(caps, f) as u128) > u32::MAX as u128,
        None => false,
    }
}

/// A sale read from a label has positive counts and a percentage off in `1..=100`.
pub proof fn lemma_sale_label_valid(label: Seq<char>)
    ensures
        spec_parse_sale_label(label) matches Some(t) ==> sale_type_valid(t),
{
    match regex_set_first_match(sale_patterns(), label) {
        Some(idx) => {
            if idx < 8 {
                match regex_captures_relaxed(sale_patterns()[idx as int], label) {
                    Some(caps) => {
                        if idx == 2 {
                            match cap_nonzero_u16(cap(caps, 1)) {
                                Some(p) => NumPercentOff::lemma_spec_from(p as u16),
                                None => {},
                            }
                        }
                    },
                    None => {},
                }
            }
        },
        None => {},
    }
}

/// The kind of sale a label gives is fixed by the pattern that matched it: `N + M gratis` and `N e
/// gratis` give a number free, `N % korting` a percentage off, `N e halve prijs` the last one at half
/// price, `N voor P` a price for a number, `P euro korting` and `€ P korting` an amount off, and
/// `NU €P` a new price.
pub proof fn lemma_sale_label_kind(label: Seq<char>)
    ensures
        sale_patterns()[0] == r#"(\d+) \s* \+ \s* (\d+) \s* gratis"#@,
        sale_patterns()[1] == r#"(\d+) \s* e \s* gratis"#@,
        sale_patterns()[2] == r#"(\d+) \s* % \s* korting"#@,
        sale_patterns()[3] == r#"(\d+) \s* e \s* halve \s* prijs"#@,
        sale_patterns()[4] == r#"(\d+) \s* voor \s* €? \s* (\d+)(?:[,.](\d+))?"#@,
        sale_patterns()[5] == r#"(\d+)(?:[,.](\d+))? \s* euro \s* korting"#@,
        sale_patterns()[6] == r#"€ \s* (\d+)(?:[,.](\d+))? \s* korting"#@,
        sale_patterns()[7] == r#"NU \s* €(\d+)(?:[,.](\d+))?"#@,
        spec_parse_sale_label(label) matches Some(t) ==> regex_set_first_match(sale_patterns(), label) matches Some(
            idx,
        ) && {
            &&& (t is NumPlusNumFree <==> (idx == 0 || idx == 1))
            &&& (t is NumPercentOff <==> idx == 2)
            &&& (t is NumthPercentOff <==> idx == 3)
            &&& (t is NumForPrice <==> idx == 4)
            &&& (t is NumEuroOff <==> (idx == 5 || idx == 6))
            &&& (t is NumEuroPrice <==> idx == 7)
        },
{
}

/// A label read as an amount off (`P euro korting`, `€ P korting`) or as a new price (`NU €P`) gives
/// that amount in cents: the whole euros times 100 plus the cents, when it fits in a `u32`; an amount
/// off is never read as a price, nor a price as an amount off.
pub proof fn lemma_sale_label_euros(label: Seq<char>, idx: nat)
    requires
        regex_set_first_match(sale_patterns(), label) == Some(idx),
        idx == 5 || idx == 6 || idx == 7,
    ensures
        match regex_captures_relaxed(sale_patterns()[idx as int], label) {
            Some(caps) => match cap_number(cap(caps, 1), u32::MAX as nat) {
                Some(euros) => {
                    let cents = euros * 100 + cap_fraction(cap(caps, 2));
                    &&& cents > u32::MAX ==> spec_parse_sale_label(label) is None
                    &&& cents <= u32::MAX && idx == 7 ==> spec_parse_sale_label(label) == Some(
                        SaleType::NumEuroPrice(NumEuroPrice { price: cents as u32 }),
                    )
                    &&& cents <= u32::MAX && idx != 7 ==> spec_parse_sale_label(label) == Some(
                        SaleType::NumEuroOff(NumEuroOff { price_off: cents as u32 }),
                    )
                },
                None => spec_parse_sale_label(label) is None,
            },
            None => spec_parse_sale_label(label) is None,
        },
{
}

/// The numbers of a sale label go where the label puts them: `N + M gratis` is N required and M free,
/// `N e gratis` is N - 1 required and one free, `N % korting` is N percent off, `N e halve prijs` is N
/// required with the last at half price (50 percent off), and `N voor P` is N for P in cents.
pub proof fn lemma_sale_label_counts(label: Seq<char>, idx: nat)
    requires
        regex_set_first_match(sale_patterns(), label) == Some(idx),
        idx <= 4,
        spec_parse_sale_label(label) is Some,
    ensures
        regex_captures_relaxed(sale_patterns()[idx as int], label) matches Some(caps) && ({
            let t = spec_parse_sale_label(label).unwrap();
            let first = cap_number(cap(caps, 1), u32::MAX as nat);
            &&& first is Some
            &&& idx == 0 ==> t == SaleType::NumPlusNumFree(
                NumPlusNumFree {
                    required: first.unwrap() as u16,
                    free: cap_number(cap(caps, 2), u32::MAX as nat).unwrap() as u16,
                },
            )
            &&& idx == 1 ==> t == SaleType::NumPlusNumFree(
                NumPlusNumFree { required: (first.unwrap() - 1) as u16, free: 1 },
            )
            &&& idx == 2 ==> (t matches SaleType::NumPercentOff(p) && p.spec_percent_off() == first.unwrap())
            &&& idx == 3 ==> t == SaleType::NumthPercentOff(
                NumthPercentOff { required: first.unwrap() as u16, last_percent_off: 50 },
            )
            &&& idx == 4 ==> t == SaleType::NumForPrice(
                NumForPrice {
                    required: first.unwrap() as u16,
                    price: (cap_number(cap(caps, 2), u32::MAX as nat).unwrap() * 100 + cap_fraction(
                        cap(caps, 3),
                    )) as u32,
                },
            )
        }),
{
    let caps = regex_captures_relaxed(sale_patterns()[idx as int], label).unwrap();
    let c1 = cap(caps, 1);
    if idx == 2 {
        NumPercentOff::lemma_spec_from(cap_nonzero_u16(c1).unwrap() as u16);
    }
}

/// Try to parse the given sale label into a proper [SaleType].
///
/// The first of [sale_patterns] (case insensitive, whitespace in the patterns insignificant) that matches
/// anywhere in the label decides; its groups are read as numbers. An amount too large for a `u32` count of
/// cents gives `None`.
pub fn parse_sale_label(sale_label: &str) -> (res: Option<SaleType>)
    ensures
        res == spec_parse_sale_label(sale_label@),
        res matches Some(t) ==> sale_type_valid(t),
{
    proof {
        lemma_sale_label_valid(sale_label@);
    }
    let patterns = sale_pattern_strings();
    let idx = match first_matching_pattern(&patterns, sale_label) {
        Some(i) => i,
        None => return None,
    };
    proof {
        assert(strings_view(patterns@)[idx as int] == patterns@[idx as int]@);
        assert(strings_view(patterns@).len() == patterns@.len());
        assert(sale_patterns().len() == 8);
    }
    let caps = match captures_relaxed(patterns[idx].as_str(), sale_label) {
        Some(c) => c,
        None => return None,
    };
    if sale_match_overflows_exec(idx, &caps) {
        return None;
    }
    sale_type_from_match(idx, &caps)
}

// ** Sale validity **

/// The number of seconds in a day.
pub open spec fn day_seconds() -> int {
    86400
}

/// The earliest and latest timestamps (seconds since the Unix epoch) that this library handles, which
/// hold every instant `chrono` can represent.
pub open spec fn min_timestamp() -> int {
    -8_400_000_000_000
}

pub open spec fn max_timestamp() -> int {
    8_400_000_000_000
}

/// The start (Monday 00:00:00 UTC) of the week that holds `now`.
pub open spec fn week_start(now: int) -> int {
    let days = now / day_seconds();
    (days - (days + 3) % 7) * day_seconds()
}

/// Return a best estimate sale validity: from the start of `now`'s week (Monday 00:00:00) to the end of
/// that week (Sunday 23:59:59).
pub fn get_guessed_sale_validity(now: i64) -> (res: SaleValidity)
    requires
        min_timestamp() <= now <= max_timestamp(),
    ensures
        res.valid_from == week_start(now as int),
        res.valid_until == week_start(now as int) + 7 * day_seconds() - 1,
        res.valid_from <= now <= res.valid_until,
{
    // Floor division: 1970-01-01 was a Thursday.
    let days: i64 = if now >= 0 {
        now / 86400
    } else {
        -((-now + 86399) / 86400)
    };
    assert(days == now as int / 86400) by (nonlinear_arith)
        requires
            days == (if now >= 0 { now / 86400 } else { -((-now + 86399) / 86400) }),
            min_timestamp() <= now <= max_timestamp(),
    ;
    let weekday: i64 = if days + 3 >= 0 {
        (days + 3) % 7
    } else {
        let r = (-(days + 3)) % 7;
        if r == 0 { 0 } else { 7 - r }
    };
    assert(weekday == (days + 3) % 7) by (nonlinear_arith)
        requires
            weekday == (if days + 3 >= 0 { (days + 3) % 7 } else { if (-(days + 3)) % 7 == 0 { 0 } else { 7 - (-(days + 3)) % 7 } }),
    ;
    let monday = days - weekday;
    let valid_from = monday * 86400;
    let valid_until = valid_from + 7 * 86400 - 1;
    assert(valid_from <= now <= valid_until) by (nonlinear_arith)
        requires
            days == now as int / 86400,
            0 <= weekday < 7,
            valid_from == (days - weekday) * 86400,
            valid_until == valid_from + 7 * 86400 - 1,
    ;
    SaleValidity { valid_from, valid_until }
}

} // verus!
