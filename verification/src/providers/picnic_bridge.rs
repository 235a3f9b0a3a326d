use vstd::prelude::*;

use crate::numbers::{first_index_of, parse_decimal, parse_unsigned, pow10, round_div,
    spec_parse_decimal, spec_parse_unsigned, lemma_first_index_of};
use crate::patterns::{captures, captures_view, group_ends, positions_view, regex_captures, regex_group_ends};
use crate::providers::jumbo_bridge::{count_trailing, trim_end};
use crate::providers::common_bridge::{
    lemma_pow10_monotonic, parse_unit_component_chars, pow10_u128, round_div_u128,
    spec_parse_unit_component,
};
use crate::providers::models::{CentPrice, IngredientInfo, UnitPrice};
use crate::text::{
    chars_of, count_leading, filter_chars, remove_chars, split_whitespace, string_from_chars,
    sub_chars, tokens, trim_start, trim_ws, trimmed,
};

verus! {

/// Cents for a decimal amount of euros: rounded (halves up), and `u32::MAX` when too large.
pub open spec fn euros_to_cents(d: (nat, nat)) -> nat {
    let c = round_div(d.0 * 100, pow10(d.1));
    if c > u32::MAX {
        u32::MAX as nat
    } else {
        c
    }
}

/// A price in the format `€16.54` or `2.32` (any number of leading `€`), as cents.
pub open spec fn spec_parse_euro_price(s: Seq<char>) -> Option<nat> {
    match spec_parse_decimal(trim_start(s, '€')) {
        Some(d) => Some(euros_to_cents(d)),
        None => None,
    }
}

fn parse_euro_price_chars(v: &Vec<char>, lo: usize, hi: usize) -> (res: Option<CentPrice>)
    requires
        lo <= hi <= v.len(),
    ensures
        res matches Some(c) ==> spec_parse_euro_price(v@.subrange(lo as int, hi as int)) == Some(
            c as nat,
        ),
        res is None ==> spec_parse_euro_price(v@.subrange(lo as int, hi as int)) is None,
{
    let part = sub_chars(v, lo, hi);
    let start = count_leading(&part, '€');
    proof {
        assert(part@.skip(start as int) =~= part@.subrange(start as int, part@.len() as int));
    }
    match parse_decimal(&part, start, part.len()) {
        Some(d) => {
            let m = d.mantissa();
            let s = d.scale();
            let p = pow10_u128(s);
            proof {
                lemma_pow10_monotonic(0, s as nat);
            }
            let c = round_div_u128((m as u128) * 100, p);
            if c > u32::MAX as u128 {
                Some(u32::MAX)
            } else {
                Some(c as u32)
            }
        },
        None => None,
    }
}

/// Try to parse the provided price in the format `€16.54` or `2.32` as a price in cents.
///
/// Invalid input will return `None`.
pub fn parse_euro_price(price: &str) -> (res: Option<CentPrice>)
    ensures
        res matches Some(c) ==> spec_parse_euro_price(price@) == Some(c as nat),
        res is None ==> spec_parse_euro_price(price@) is None,
{
    let v = chars_of(price);
    proof {
        assert(v@.subrange(0, v@.len() as int) =~= v@);
    }
    parse_euro_price_chars(&v, 0, v.len())
}

/// A unit price in the format `€16.54/l` or `€13.54/kg`, as (unit, cents).
pub open spec fn spec_parse_unit_price(s: Seq<char>) -> Option<(crate::providers::models::Unit, nat)> {
    let i = first_index_of(s, '/');
    if i < s.len() {
        match (spec_parse_euro_price(s.take(i as int)), spec_parse_unit_component(s.skip(i as int + 1))) {
            (Some(p), Some(u)) => Some((u, p)),
            _ => None,
        }
    } else {
        None
    }
}

/// The index of the first `c` in `v`, or `v.len()`.
pub fn find_char(v: &Vec<char>, c: char) -> (res: usize)
    ensures
        res == first_index_of(v@, c),
{
    proof {
        lemma_first_index_of(v@, c);
    }
    let mut i: usize = 0;
    while i < v.len() && v[i] != c
        invariant
            i <= v.len(),
            forall|j: int| 0 <= j < i ==> v@[j] != c,
        decreases v.len() - i,
    {
        i = i + 1;
    }
    proof {
        let f = first_index_of(v@, c);
        if f < i {
            assert(v@[f as int] == c);
        }
        if f > i {
            assert(v@[i as int] == c);
        }
    }
    i
}

/// Try to parse the provided unit price in the format `€16.54/l` or `€13.54/kg`.
///
/// Invalid input will return `None`.
pub fn parse_unit_price(unit_price: &str) -> (res: Option<UnitPrice>)
    ensures
        res matches Some(p) ==> spec_parse_unit_price(unit_price@) == Some((p.unit, p.price as nat)),
        res is None ==> spec_parse_unit_price(unit_price@) is None,
{
    let v = chars_of(unit_price);
    let i = find_char(&v, '/');
    if i >= v.len() {
        return None;
    }
    let cents = parse_euro_price_chars(&v, 0, i);
    let unit_part = sub_chars(&v, i + 1, v.len());
    let unit = parse_unit_component_chars(&unit_part);
    proof {
        assert(v@.subrange(0, i as int) =~= v@.take(i as int));
        assert(unit_part@ =~= v@.skip(i + 1));
    }
    match (cents, unit) {
        (Some(price), Some(unit)) => Some(UnitPrice { unit, price }),
        _ => None,
    }
}

/// The days fresh of a period such as `P5D` or `P7D`: the number left once every `P` and `D` is removed.
pub open spec fn spec_parse_days_fresh(period: Seq<char>) -> Option<nat> {
    spec_parse_unsigned(filter_chars(period, 'P', 'D'), u32::MAX as nat)
}

/// Parse the days fresh in the format `P5D` or `P7D` (5 days and 7 days respectively).
pub fn parse_days_fresh(period: &str) -> (res: Option<u32>)
    ensures
        res matches Some(d) ==> spec_parse_days_fresh(period@) == Some(d as nat),
        res is None ==> spec_parse_days_fresh(period@) is None,
{
    let v = chars_of(period);
    let digits = remove_chars(&v, 'P', 'D');
    crate::numbers::parse_u32(&digits)
}

/// The preparation time in minutes in a unit text such as `4-6 pers | 30 min`: the first word after the
/// first `|`, read as a number.
pub open spec fn spec_parse_prep_time(s: Seq<char>) -> Option<nat> {
    let i = first_index_of(s, '|');
    if i < s.len() {
        let words = tokens(s.skip(i as int + 1));
        if words.len() > 0 {
            spec_parse_unsigned(words[0], u32::MAX as nat)
        } else {
            None
        }
    } else {
        None
    }
}

/// Try to parse the unit string as a prep time in minutes.
pub fn parse_prep_time(unit_str: &str) -> (res: Option<u32>)
    ensures
        res matches Some(m) ==> spec_parse_prep_time(unit_str@) == Some(m as nat),
        res is None ==> spec_parse_prep_time(unit_str@) is None,
{
    let v = chars_of(unit_str);
    let i = find_char(&v, '|');
    if i >= v.len() {
        return None;
    }
    let rest = sub_chars(&v, i + 1, v.len());
    proof {
        assert(rest@ =~= v@.skip(i + 1));
    }
    let words = split_whitespace(&rest);
    if words.len() == 0 {
        return None;
    }
    proof {
        assert(words@.map_values(|w: Vec<char>| w@)[0] == words@[0]@);
    }
    crate::numbers::parse_u32(&words[0])
}

/// The colour-tagged PML markdown pattern: the text between the first `)` after a `#` and the next `#`.
pub open spec fn pml_pattern() -> Seq<char> {
    r"#.*?\)(.*?)#.*"@
}

/// The markdown between PML colour tags: group 1 of [pml_pattern] in `contents`.
pub open spec fn spec_parse_pml_markdown(contents: Seq<char>) -> Option<Seq<char>> {
    match regex_captures(pml_pattern(), contents) {
        Some(caps) => if caps.len() > 1 {
            caps[1]
        } else {
            None
        },
        None => None,
    }
}

/// Parse any PML markdown between their colour tags.
pub fn parse_pml_markdown(contents: &str) -> (res: Option<String>)
    ensures
        res matches Some(s) ==> spec_parse_pml_markdown(contents@) == Some(s@),
        res is None ==> spec_parse_pml_markdown(contents@) is None,
{
    let caps = match captures(r"#.*?\)(.*?)#.*", contents) {
        Some(c) => c,
        None => return None,
    };
    if caps.len() > 1 {
        proof {
            assert(captures_view(caps@)[1] == crate::patterns::opt_string_view(caps@[1]));
        }
        match &caps[1] {
            Some(s) => Some(s.clone()),
            None => None,
        }
    } else {
        None
    }
}


// ** Ingredients **

/// The pattern that finds the commas between ingredients: bracketed parts (nested once) and decimal
/// percentages match first, so that only the separating commas end up in group 1.
pub open spec fn ingredient_pattern() -> Seq<char> {
    r"\([^()]*?(?:\(.*?\))+[^()]*?\)|\(.*?\)|\d+,\d+%|(,)"@
}

/// The positions that are present, in order.
pub open spec fn present_ends(raw: Seq<Option<nat>>) -> Seq<nat>
    decreases raw.len(),
{
    if raw.len() == 0 {
        seq![]
    } else {
        let rest = present_ends(raw.drop_last());
        match raw.last() {
            Some(e) => rest.push(e),
            None => rest,
        }
    }
}

/// Whether comma end positions can cut a text of `n` characters: each follows at least one character
/// and they strictly increase.
pub open spec fn ends_well_formed(n: nat, ends: Seq<nat>) -> bool {
    &&& forall|i: int| 0 <= i < ends.len() ==> 1 <= #[trigger] ends[i] <= n
    &&& forall|i: int| 0 < i < ends.len() ==> ends[i - 1] < #[trigger] ends[i]
}

/// Ingredient `i` of a blob cut after the commas ending at `ends`: the text before the first comma, the
/// text between two commas, or the text after the last comma without trailing dots.
pub open spec fn ingredient_segment(blob: Seq<char>, ends: Seq<nat>, i: int) -> Seq<char> {
    if i == 0 {
        blob.take(ends[0] - 1)
    } else if i < ends.len() {
        blob.subrange(ends[i - 1] as int, ends[i] - 1)
    } else {
        trim_end(blob.skip(ends[i - 1] as int), '.')
    }
}

/// The trimmed ingredient names of a blob cut after the commas ending at `ends`; `None` without commas
/// (and for positions that cannot cut the blob, which the pattern does not produce).
pub open spec fn spec_ingredients_from_ends(blob: Seq<char>, ends: Seq<nat>) -> Option<Seq<Seq<char>>> {
    if ends.len() == 0 || !ends_well_formed(blob.len(), ends) {
        None
    } else {
        Some(Seq::new((ends.len() + 1) as nat, |i: int| trim_ws(ingredient_segment(blob, ends, i))))
    }
}

/// The ingredient names of a blob such as `71% tomaat, ui, wortel, 6,6% tomatenpuree (tomatenpuree,
/// zout)`.
pub open spec fn spec_parse_ingredient_blob(blob: Seq<char>) -> Option<Seq<Seq<char>>> {
    spec_ingredients_from_ends(blob, present_ends(regex_group_ends(ingredient_pattern(), blob, 1)))
}

/// The view of optional ingredients: their names.
pub open spec fn opt_ingredients_view(v: Option<Vec<IngredientInfo>>) -> Option<Seq<Seq<char>>> {
    match v {
        Some(items) => Some(items@.map_values(|i: IngredientInfo| i.name@)),
        None => None,
    }
}

/// Ingredient `i` of a blob cut after the commas ending at `ends`, trimmed.
fn ingredient_name(blob: &Vec<char>, ends: &Vec<usize>, i: usize) -> (res: String)
    requires
        ends.len() > 0,
        ends_well_formed(blob@.len(), ends@.map_values(|e: usize| e as nat)),
        i <= ends.len(),
    ensures
        res@ == trim_ws(ingredient_segment(blob@, ends@.map_values(|e: usize| e as nat), i as int)),
{
    let ghost es = ends@.map_values(|e: usize| e as nat);
    if i == 0 {
        proof {
            assert(es[0] == ends@[0] as nat);
            assert(blob@.subrange(0, ends[0] - 1) =~= blob@.take(es[0] - 1));
        }
        trimmed(blob, 0, ends[0] - 1)
    } else if i < ends.len() {
        proof {
            assert(es[i as int] == ends@[i as int] as nat);
            assert(es[i - 1] == ends@[i - 1] as nat);
            assert(es[i - 1] < es[i as int]);
        }
        trimmed(blob, ends[i - 1], ends[i] - 1)
    } else {
        proof {
            assert(es[i - 1] == ends@[i - 1] as nat);
        }
        let tail = sub_chars(blob, ends[i - 1], blob.len());
        let n = count_trailing(&tail, '.');
        proof {
            assert(blob@.subrange(ends[i - 1] as int, blob@.len() as int) =~= blob@.skip(es[i - 1] as int));
            assert(tail@.subrange(0, tail.len() - n) =~= tail@.take(tail.len() - n));
        }
        trimmed(&tail, 0, tail.len() - n)
    }
}

/// The trimmed ingredient names of a blob cut after the commas ending at `ends`, see
/// [spec_ingredients_from_ends].
pub fn ingredients_from_ends(blob: &Vec<char>, ends: &Vec<usize>) -> (res: Option<Vec<IngredientInfo>>)
    ensures
        opt_ingredients_view(res) == spec_ingredients_from_ends(blob@, ends@.map_values(|e: usize| e as nat)),
{
    let ghost es = ends@.map_values(|e: usize| e as nat);
    if ends.len() == 0 {
        return None;
    }
    // Check that the positions can cut the blob.
    let mut k: usize = 0;
    while k < ends.len()
        invariant
            k <= ends.len(),
            es == ends@.map_values(|e: usize| e as nat),
            forall|i: int| 0 <= i < k ==> 1 <= #[trigger] es[i] <= blob.len(),
            forall|i: int| 0 < i < k ==> es[i - 1] < #[trigger] es[i],
        decreases ends.len() - k,
    {
        if ends[k] < 1 || ends[k] > blob.len() || (k > 0 && ends[k - 1] >= ends[k]) {
            proof {
                assert(es[k as int] == ends@[k as int] as nat);
                if k > 0 {
                    assert(es[k - 1] == ends@[k - 1] as nat);
                }
                assert(!ends_well_formed(blob@.len(), es));
            }
            return None;
        }
        k = k + 1;
    }
    let ghost names = Seq::new((es.len() + 1) as nat, |i: int| trim_ws(ingredient_segment(blob@, es, i)));
    let mut result: Vec<IngredientInfo> = Vec::new();
    let mut i: usize = 0;
    while i < ends.len()
        invariant
            i <= ends.len(),
            ends.len() > 0,
            es == ends@.map_values(|e: usize| e as nat),
            ends_well_formed(blob@.len(), es),
            es.len() == ends.len(),
            names == Seq::new((es.len() + 1) as nat, |i: int| trim_ws(ingredient_segment(blob@, es, i))),
            result@.map_values(|x: IngredientInfo| x.name@) == names.take(i as int),
        decreases ends.len() - i,
    {
        let name = ingredient_name(blob, ends, i);
        let ghost prev = result@;
        let item = IngredientInfo { name };
        result.push(item);
        proof {
            assert(names.take(i + 1) =~= names.take(i as int).push(names[i as int]));
            assert(result@.map_values(|x: IngredientInfo| x.name@) =~= prev.map_values(|x: IngredientInfo| x.name@).push(
                item.name@,
            ));
        }
        i = i + 1;
    }
    let name = ingredient_name(blob, ends, i);
    let ghost prev = result@;
    let item = IngredientInfo { name };
    result.push(item);
    proof {
        assert(names.take(i + 1) =~= names.take(i as int).push(names[i as int]));
        assert(result@.map_values(|x: IngredientInfo| x.name@) =~= prev.map_values(|x: IngredientInfo| x.name@).push(
            item.name@,
        ));
        assert(names.take(i + 1) =~= names);
    }
    Some(result)
}

/// Try to parse an ingredient blob of the form `71% tomaat, ui, wortel, 6,6% tomatenpuree (tomatenpuree,
/// zout), etc` into its ingredients: the text is cut at every comma that is not inside brackets or a
/// decimal percentage. `None` when there is no such comma.
pub fn parse_picnic_ingredient_blob(blob: &str) -> (res: Option<Vec<IngredientInfo>>)
    ensures
        opt_ingredients_view(res) == spec_parse_ingredient_blob(blob@),
{
    let raw = group_ends(r"\([^()]*?(?:\(.*?\))+[^()]*?\)|\(.*?\)|\d+,\d+%|(,)", blob, 1);
    let ghost raw_view = positions_view(raw@);
    let mut ends: Vec<usize> = Vec::new();
    let mut k: usize = 0;
    while k < raw.len()
        invariant
            k <= raw.len(),
            raw_view == positions_view(raw@),
            ends@.map_values(|e: usize| e as nat) == present_ends(raw_view.take(k as int)),
        decreases raw.len() - k,
    {
        proof {
            assert(raw_view.take(k + 1).drop_last() =~= raw_view.take(k as int));
            assert(raw_view.take(k + 1).last() == raw_view[k as int]);
        }
        let ghost prev = ends@;
        match raw[k] {
            Some(e) => {
                ends.push(e);
                proof {
                    assert(ends@.map_values(|e: usize| e as nat) =~= prev.map_values(|e: usize| e as nat).push(
                        e as nat,
                    ));
                }
            },
            None => {},
        }
        k = k + 1;
    }
    proof {
        assert(raw_view.take(raw.len() as int) =~= raw_view);
        reveal_strlit(r"\([^()]*?(?:\(.*?\))+[^()]*?\)|\(.*?\)|\d+,\d+%|(,)");
    }
    let chars = chars_of(blob);
    ingredients_from_ends(&chars, &ends)
}

} // verus!
