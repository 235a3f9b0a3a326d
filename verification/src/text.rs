use vstd::prelude::*;

verus! {

// ** Characters and strings **

/// The characters of `s`, in order.
pub fn chars_of(s: &str) -> (res: Vec<char>)
    ensures
        res@ == s@,
{
    let mut res: Vec<char> = Vec::new();
    for c in it: s.chars()
        invariant
            res@ == it.seq().take(it.index() as int),
    {
        res.push(c);
    }
    proof {
        assert(res@ =~= s@);
    }
    res
}

/// Appends one character: `String::push`.
#[verifier::external_body]
fn push_char(s: &mut String, c: char)
    ensures
        final(s)@ == old(s)@.push(c),
{
    s.push(c);
}

/// Appends the ASCII digit for `d`.
pub fn push_digit(s: &mut String, d: u8)
    requires
        d < 10,
    ensures
        final(s)@ == old(s)@.push((d + 48) as char),
{
    let c: char = if d == 0 {
        '0'
    } else if d == 1 {
        '1'
    } else if d == 2 {
        '2'
    } else if d == 3 {
        '3'
    } else if d == 4 {
        '4'
    } else if d == 5 {
        '5'
    } else if d == 6 {
        '6'
    } else if d == 7 {
        '7'
    } else if d == 8 {
        '8'
    } else {
        '9'
    };
    push_char(s, c);
}

/// The string made of `v[lo..hi]`.
pub fn string_from_range(v: &Vec<char>, lo: usize, hi: usize) -> (res: String)
    requires
        lo <= hi <= v.len(),
    ensures
        res@ == v@.subrange(lo as int, hi as int),
{
    let mut res = String::new();
    let mut i = lo;
    while i < hi
        invariant
            lo <= i <= hi <= v.len(),
            res@ == v@.subrange(lo as int, i as int),
        decreases hi - i,
    {
        push_char(&mut res, v[i]);
        i = i + 1;
        proof {
            assert(res@ =~= v@.subrange(lo as int, i as int));
        }
    }
    res
}

/// The string made of the characters in `v`.
pub fn string_from_chars(v: &Vec<char>) -> (res: String)
    ensures
        res@ == v@,
{
    let res = string_from_range(v, 0, v.len());
    proof {
        assert(v@.subrange(0, v@.len() as int) =~= v@);
    }
    res
}

/// The characters `v[lo..hi]` as a new vector.
pub fn sub_chars(v: &Vec<char>, lo: usize, hi: usize) -> (res: Vec<char>)
    requires
        lo <= hi <= v.len(),
    ensures
        res@ == v@.subrange(lo as int, hi as int),
{
    let mut res: Vec<char> = Vec::new();
    let mut i = lo;
    while i < hi
        invariant
            lo <= i <= hi <= v.len(),
            res@ == v@.subrange(lo as int, i as int),
        decreases hi - i,
    {
        res.push(v[i]);
        i = i + 1;
        proof {
            assert(res@ =~= v@.subrange(lo as int, i as int));
        }
    }
    res
}

/// Whether `a` and `b` hold the same characters.
pub fn chars_eq(a: &Vec<char>, b: &Vec<char>) -> (res: bool)
    ensures
        res == (a@ == b@),
{
    if a.len() != b.len() {
        return false;
    }
    let mut i: usize = 0;
    while i < a.len()
        invariant
            a.len() == b.len(),
            i <= a.len(),
            forall|j: int| 0 <= j < i ==> a@[j] == b@[j],
        decreases a.len() - i,
    {
        if a[i] != b[i] {
            return false;
        }
        i = i + 1;
    }
    proof {
        assert(a@ =~= b@);
    }
    true
}

/// Whether `c` occurs in `v`.
pub fn contains_char(v: &Vec<char>, c: char) -> (res: bool)
    ensures
        res == v@.contains(c),
{
    let mut i: usize = 0;
    while i < v.len()
        invariant
            i <= v.len(),
            forall|j: int| 0 <= j < i ==> v@[j] != c,
        decreases v.len() - i,
    {
        if v[i] == c {
            assert(v@[i as int] == c);
            return true;
        }
        i = i + 1;
    }
    false
}

/// Whether `needle` occurs as a contiguous run in `hay`.
pub open spec fn spec_contains_seq(hay: Seq<char>, needle: Seq<char>) -> bool {
    exists|i: int| 0 <= i <= hay.len() - needle.len() && #[trigger] hay.subrange(i, i + needle.len()) == needle
}

/// Whether `hay` starts at `i` with `needle`.
pub(crate) fn matches_at(hay: &Vec<char>, needle: &Vec<char>, i: usize) -> (res: bool)
    requires
        i + needle.len() <= hay.len(),
    ensures
        res == (hay@.subrange(i as int, i + needle.len()) == needle@),
{
    let mut k: usize = 0;
    while k < needle.len()
        invariant
            i + needle.len() <= hay.len(),
            k <= needle.len(),
            forall|j: int| 0 <= j < k ==> hay@[i + j] == needle@[j],
        decreases needle.len() - k,
    {
        if hay[i + k] != needle[k] {
            assert(hay@.subrange(i as int, i + needle.len())[k as int] != needle@[k as int]);
            return false;
        }
        k = k + 1;
    }
    assert(hay@.subrange(i as int, i + needle.len()) =~= needle@);
    true
}

/// Whether `needle` occurs in `hay` (`str::contains`).
pub fn contains_seq(hay: &Vec<char>, needle: &Vec<char>) -> (res: bool)
    ensures
        res == spec_contains_seq(hay@, needle@),
{
    if needle.len() > hay.len() {
        return false;
    }
    let last = hay.len() - needle.len();
    let mut i: usize = 0;
    while i <= last
        invariant
            last == hay.len() - needle.len(),
            needle.len() <= hay.len(),
            forall|j: int| 0 <= j < i ==> #[trigger] hay@.subrange(j, j + needle.len()) != needle@,
        decreases last + 1 - i,
    {
        if matches_at(hay, needle, i) {
            return true;
        }
        if i == last {
            return false;
        }
        i = i + 1;
    }
    false
}

// ** Whitespace and tokens **

/// `char::is_whitespace`: the Unicode `White_Space` property.
pub open spec fn spec_is_whitespace(c: char) -> bool {
    let n = c as u32;
    ||| 0x9 <= n <= 0xd
    ||| n == 0x20
    ||| n == 0x85
    ||| n == 0xa0
    ||| n == 0x1680
    ||| 0x2000 <= n <= 0x200a
    ||| n == 0x2028
    ||| n == 0x2029
    ||| n == 0x202f
    ||| n == 0x205f
    ||| n == 0x3000
}

pub fn is_whitespace(c: char) -> (res: bool)
    ensures
        res == spec_is_whitespace(c),
{
    let n = c as u32;
    (0x9 <= n && n <= 0xd) || n == 0x20 || n == 0x85 || n == 0xa0 || n == 0x1680 || (0x2000 <= n
        && n <= 0x200a) || n == 0x2028 || n == 0x2029 || n == 0x202f || n == 0x205f || n == 0x3000
}

/// The number of leading whitespace characters of `s`.
pub open spec fn ws_run(s: Seq<char>) -> nat
    decreases s.len(),
{
    if s.len() > 0 && spec_is_whitespace(s[0]) {
        1 + ws_run(s.drop_first())
    } else {
        0
    }
}

/// The number of leading non-whitespace characters of `s`.
pub open spec fn word_run(s: Seq<char>) -> nat
    decreases s.len(),
{
    if s.len() > 0 && !spec_is_whitespace(s[0]) {
        1 + word_run(s.drop_first())
    } else {
        0
    }
}

proof fn lemma_ws_run_bound(s: Seq<char>)
    ensures
        ws_run(s) <= s.len(),
    decreases s.len(),
{
    if s.len() > 0 && spec_is_whitespace(s[0]) {
        lemma_ws_run_bound(s.drop_first());
    }
}

proof fn lemma_word_run_bound(s: Seq<char>)
    ensures
        word_run(s) <= s.len(),
    decreases s.len(),
{
    if s.len() > 0 && !spec_is_whitespace(s[0]) {
        lemma_word_run_bound(s.drop_first());
    }
}

/// The whitespace-separated words of `s` (`str::split_whitespace`).
pub open spec fn tokens(s: Seq<char>) -> Seq<Seq<char>>
    decreases s.len(),
{
    let t = s.skip(ws_run(s) as int);
    if ws_run(s) > s.len() || t.len() == 0 {
        seq![]
    } else {
        let w = word_run(t);
        if w == 0 || w > t.len() {
            seq![]
        } else {
            seq![t.take(w as int)] + tokens(t.skip(w as int))
        }
    }
}

proof fn lemma_ws_run_exact(s: Seq<char>, n: int)
    requires
        0 <= n <= s.len(),
        forall|j: int| 0 <= j < n ==> spec_is_whitespace(s[j]),
        n == s.len() || !spec_is_whitespace(s[n]),
    ensures
        ws_run(s) == n,
    decreases n,
{
    if n > 0 {
        lemma_ws_run_exact(s.drop_first(), n - 1);
    }
}

proof fn lemma_word_run_exact(s: Seq<char>, n: int)
    requires
        0 <= n <= s.len(),
        forall|j: int| 0 <= j < n ==> !spec_is_whitespace(s[j]),
        n == s.len() || spec_is_whitespace(s[n]),
    ensures
        word_run(s) == n,
    decreases n,
{
    if n > 0 {
        lemma_word_run_exact(s.drop_first(), n - 1);
    }
}

/// The whitespace-separated words of `v`, in order.
pub fn split_whitespace(v: &Vec<char>) -> (res: Vec<Vec<char>>)
    ensures
        res@.map_values(|w: Vec<char>| w@) == tokens(v@),
{
    let mut res: Vec<Vec<char>> = Vec::new();
    let mut i: usize = 0;
    proof {
        assert(v@.skip(0) =~= v@);
        assert(res@.map_values(|w: Vec<char>| w@) + tokens(v@) =~= tokens(v@));
    }
    while i < v.len()
        invariant
            i <= v.len(),
            res@.map_values(|w: Vec<char>| w@) + tokens(v@.skip(i as int)) == tokens(v@),
        decreases v.len() - i,
    {
        let ghost s = v@.skip(i as int);
        let mut j = i;
        while j < v.len() && is_whitespace(v[j])
            invariant
                i <= j <= v.len(),
                forall|k: int| i <= k < j ==> spec_is_whitespace(v@[k]),
            decreases v.len() - j,
        {
            j = j + 1;
        }
        proof {
            lemma_ws_run_exact(s, j - i);
        }
        if j == v.len() {
            proof {
                assert(s.skip(ws_run(s) as int).len() == 0);
                assert(tokens(s) == Seq::<Seq<char>>::empty());
                assert(tokens(v@.skip(v.len() as int)) == Seq::<Seq<char>>::empty()) by {
                    assert(v@.skip(v.len() as int).len() == 0);
                    lemma_ws_run_bound(v@.skip(v.len() as int));
                }
                assert(res@.map_values(|w: Vec<char>| w@) + tokens(s) =~= res@.map_values(
                    |w: Vec<char>| w@,
                ));
            }
            i = j;
        } else {
            let mut k = j;
            while k < v.len() && !is_whitespace(v[k])
                invariant
                    j <= k <= v.len(),
                    forall|m: int| j <= m < k ==> !spec_is_whitespace(v@[m]),
                decreases v.len() - k,
            {
                k = k + 1;
            }
            let ghost t = s.skip(ws_run(s) as int);
            proof {
                assert(t =~= v@.skip(j as int));
                lemma_word_run_exact(t, k - j);
                assert(t.take((k - j) as int) =~= v@.subrange(j as int, k as int));
                assert(t.skip((k - j) as int) =~= v@.skip(k as int));
            }
            let word = sub_chars(v, j, k);
            let ghost old_res = res@;
            res.push(word);
            proof {
                assert(res@.map_values(|w: Vec<char>| w@) =~= old_res.map_values(|w: Vec<char>| w@)
                    + seq![word@]);
                assert(tokens(s) == seq![word@] + tokens(v@.skip(k as int)));
                assert(res@.map_values(|w: Vec<char>| w@) + tokens(v@.skip(k as int))
                    =~= old_res.map_values(|w: Vec<char>| w@) + tokens(s));
            }
            i = k;
        }
    }
    proof {
        assert(v@.skip(i as int).len() == 0);
        lemma_ws_run_bound(v@.skip(i as int));
        assert(tokens(v@.skip(i as int)) == Seq::<Seq<char>>::empty());
        assert(res@.map_values(|w: Vec<char>| w@) + tokens(v@.skip(i as int)) =~= res@.map_values(
            |w: Vec<char>| w@,
        ));
    }
    res
}

} // verus!

verus! {

/// Whether `v` holds exactly the characters of `lit`.
pub fn eq_lit(v: &Vec<char>, lit: &str) -> (res: bool)
    ensures
        res == (v@ == lit@),
{
    let l = chars_of(lit);
    chars_eq(v, &l)
}

/// `s` with every `from` replaced by `to`.
pub open spec fn replace_char(s: Seq<char>, from: char, to: char) -> Seq<char> {
    s.map_values(|c: char| if c == from { to } else { c })
}

/// `v` with every `from` replaced by `to` (`str::replace` with one-character patterns).
pub fn replace_chars(v: &Vec<char>, from: char, to: char) -> (res: Vec<char>)
    ensures
        res@ == replace_char(v@, from, to),
{
    let mut res: Vec<char> = Vec::new();
    let mut i: usize = 0;
    while i < v.len()
        invariant
            i <= v.len(),
            res@ == replace_char(v@.take(i as int), from, to),
        decreases v.len() - i,
    {
        let c = if v[i] == from { to } else { v[i] };
        res.push(c);
        proof {
            assert(replace_char(v@.take(i + 1), from, to) =~= replace_char(v@.take(i as int), from, to).push(c));
        }
        i = i + 1;
    }
    proof {
        assert(v@.take(v.len() as int) =~= v@);
    }
    res
}

/// The length of the run of ASCII digits that `s` starts with.
pub open spec fn leading_digits(s: Seq<char>) -> nat
    decreases s.len(),
{
    if s.len() > 0 && crate::numbers::is_ascii_digit(s[0]) {
        1 + leading_digits(s.drop_first())
    } else {
        0
    }
}

pub proof fn lemma_leading_digits_exact(s: Seq<char>, n: int)
    requires
        0 <= n <= s.len(),
        forall|j: int| 0 <= j < n ==> crate::numbers::is_ascii_digit(s[j]),
        n == s.len() || !crate::numbers::is_ascii_digit(s[n]),
    ensures
        leading_digits(s) == n,
    decreases n,
{
    if n > 0 {
        lemma_leading_digits_exact(s.drop_first(), n - 1);
    }
}

/// The length of the run of ASCII digits that `v` starts with.
pub fn count_leading_digits(v: &Vec<char>) -> (res: usize)
    ensures
        res == leading_digits(v@),
        res <= v.len(),
{
    let mut i: usize = 0;
    while i < v.len() && (v[i] as u32) >= 48 && (v[i] as u32) <= 57
        invariant
            i <= v.len(),
            forall|j: int| 0 <= j < i ==> crate::numbers::is_ascii_digit(v@[j]),
        decreases v.len() - i,
    {
        i = i + 1;
    }
    proof {
        lemma_leading_digits_exact(v@, i as int);
    }
    i
}

} // verus!

verus! {

/// `s` without its leading run of `c` (`str::trim_start_matches` with one character).
pub open spec fn trim_start(s: Seq<char>, c: char) -> Seq<char>
    decreases s.len(),
{
    if s.len() > 0 && s[0] == c {
        trim_start(s.drop_first(), c)
    } else {
        s
    }
}

/// The number of leading `c` in `v`, so that `trim_start(v@, c) == v@.skip(res)`.
pub fn count_leading(v: &Vec<char>, c: char) -> (res: usize)
    ensures
        res <= v.len(),
        trim_start(v@, c) == v@.skip(res as int),
{
    let mut i: usize = 0;
    proof {
        assert(v@.skip(0) =~= v@);
    }
    while i < v.len() && v[i] == c
        invariant
            i <= v.len(),
            trim_start(v@, c) == trim_start(v@.skip(i as int), c),
        decreases v.len() - i,
    {
        proof {
            assert(v@.skip(i as int).drop_first() =~= v@.skip(i + 1));
        }
        i = i + 1;
    }
    proof {
        assert(v@.skip(0) =~= v@);
    }
    i
}

/// `s` without the characters that `keep` rejects.
pub open spec fn filter_chars(s: Seq<char>, a: char, b: char) -> Seq<char> {
    s.filter(|ch: char| ch != a && ch != b)
}

/// `v` without every `a` and `b`.
pub fn remove_chars(v: &Vec<char>, a: char, b: char) -> (res: Vec<char>)
    ensures
        res@ == filter_chars(v@, a, b),
{
    let mut res: Vec<char> = Vec::new();
    let mut i: usize = 0;
    while i < v.len()
        invariant
            i <= v.len(),
            res@ == filter_chars(v@.take(i as int), a, b),
        decreases v.len() - i,
    {
        proof {
            reveal_with_fuel(Seq::filter, 1);
            assert(v@.take(i + 1).drop_last() =~= v@.take(i as int));
        }
        if v[i] != a && v[i] != b {
            res.push(v[i]);
        }
        i = i + 1;
    }
    proof {
        assert(v@.take(v.len() as int) =~= v@);
    }
    res
}


/// The number of trailing whitespace characters of `s`.
pub open spec fn ws_tail(s: Seq<char>) -> nat
    decreases s.len(),
{
    if s.len() > 0 && spec_is_whitespace(s.last()) {
        1 + ws_tail(s.drop_last())
    } else {
        0
    }
}

/// `s` without leading and trailing whitespace (`str::trim`).
pub open spec fn trim_ws(s: Seq<char>) -> Seq<char> {
    let t = s.skip(ws_run(s) as int);
    t.take(t.len() - ws_tail(t))
}

proof fn lemma_ws_tail_exact(s: Seq<char>, n: int)
    requires
        0 <= n <= s.len(),
        forall|j: int| s.len() - n <= j < s.len() ==> spec_is_whitespace(s[j]),
        n == s.len() || !spec_is_whitespace(s[s.len() - n - 1]),
    ensures
        ws_tail(s) == n,
    decreases n,
{
    if n > 0 {
        assert forall|j: int| s.drop_last().len() - (n - 1) <= j < s.drop_last().len() implies spec_is_whitespace(
            s.drop_last()[j],
        ) by {
            assert(s.drop_last()[j] == s[j]);
        }
        if n - 1 < s.drop_last().len() {
            assert(s.drop_last()[s.drop_last().len() - (n - 1) - 1] == s[s.len() - n - 1]);
        }
        lemma_ws_tail_exact(s.drop_last(), n - 1);
    }
}

/// The string `v[lo..hi]` without leading and trailing whitespace.
pub fn trimmed(v: &Vec<char>, lo: usize, hi: usize) -> (res: String)
    requires
        lo <= hi <= v.len(),
    ensures
        res@ == trim_ws(v@.subrange(lo as int, hi as int)),
{
    let ghost s = v@.subrange(lo as int, hi as int);
    let mut i: usize = lo;
    while i < hi && is_whitespace(v[i])
        invariant
            lo <= i <= hi <= v.len(),
            s == v@.subrange(lo as int, hi as int),
            forall|j: int| 0 <= j < i - lo ==> spec_is_whitespace(s[j]),
        decreases hi - i,
    {
        i = i + 1;
    }
    proof {
        lemma_ws_run_exact(s, i - lo);
    }
    let ghost t = s.skip(i - lo);
    let mut j: usize = hi;
    while j > i && is_whitespace(v[j - 1])
        invariant
            lo <= i <= j <= hi <= v.len(),
            s == v@.subrange(lo as int, hi as int),
            t == s.skip(i - lo),
            forall|q: int| t.len() - (hi - j) <= q < t.len() ==> spec_is_whitespace(t[q]),
        decreases j - i,
    {
        proof {
            assert(t[t.len() - (hi - j) - 1] == v@[j - 1]);
        }
        j = j - 1;
    }
    proof {
        if j > i {
            assert(t[t.len() - (hi - j) - 1] == v@[j - 1]);
        }
        lemma_ws_tail_exact(t, hi - j);
        assert(t.take(t.len() - (hi - j)) =~= v@.subrange(i as int, j as int));
    }
    string_from_range(v, i, j)
}

/// `s` with every occurrence of `pat` removed, the occurrences found from the left without overlap (as
/// `str::replace` with an empty replacement does); an empty pattern leaves `s` as it is.
pub open spec fn remove_all(s: Seq<char>, pat: Seq<char>) -> Seq<char>
    decreases s.len(),
{
    if pat.len() == 0 || s.len() == 0 {
        s
    } else if s.len() >= pat.len() && s.subrange(0, pat.len() as int) == pat {
        remove_all(s.skip(pat.len() as int), pat)
    } else {
        seq![s[0]] + remove_all(s.skip(1), pat)
    }
}

/// `s` with every occurrence of `pat` removed, see [remove_all].
pub fn remove_text(s: &str, pat: &str) -> (res: String)
    ensures
        res@ == remove_all(s@, pat@),
{
    let v = chars_of(s);
    let p = chars_of(pat);
    if p.len() == 0 {
        return String::from_str(s);
    }
    let mut out: Vec<char> = Vec::new();
    let mut i: usize = 0;
    proof {
        assert(v@.skip(0) =~= v@);
    }
    while i < v.len()
        invariant
            i <= v.len(),
            p.len() > 0,
            out@ + remove_all(v@.skip(i as int), p@) == remove_all(v@, p@),
        decreases v.len() - i,
    {
        let ghost rest = v@.skip(i as int);
        if p.len() <= v.len() - i && matches_at(&v, &p, i) {
            proof {
                assert(rest.subrange(0, p.len() as int) =~= v@.subrange(i as int, i + p.len()));
                assert(rest.skip(p.len() as int) =~= v@.skip(i + p.len()));
            }
            i = i + p.len();
        } else {
            proof {
                if rest.len() >= p.len() {
                    assert(rest.subrange(0, p.len() as int) =~= v@.subrange(i as int, i + p.len()));
                }
                assert(rest.skip(1) =~= v@.skip(i + 1));
                assert(rest[0] == v@[i as int]);
            }
            let ghost before = out@;
            out.push(v[i]);
            proof {
                assert(out@ + remove_all(v@.skip(i + 1), p@) =~= before + (seq![v@[i as int]] + remove_all(
                    v@.skip(i + 1),
                    p@,
                )));
            }
            i = i + 1;
        }
    }
    proof {
        assert(v@.skip(i as int) =~= Seq::<char>::empty());
        assert(out@ + remove_all(v@.skip(i as int), p@) =~= out@);
    }
    string_from_chars(&out)
}

} // verus!
