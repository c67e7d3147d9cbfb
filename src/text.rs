//! Text helpers: decimal numerals and the text form of Postgres arrays.
use vstd::prelude::*;

use crate::external::push_char;

verus! {

/// The character of the decimal digit `d`.
pub open spec fn digit_char(d: nat) -> char {
    ((d + 48) as u32) as char
}

/// The decimal numeral of `n`, without sign or leading zeros.
pub open spec fn decimal(n: nat) -> Seq<char>
    decreases n,
{
    if n < 10 {
        seq![digit_char(n)]
    } else {
        decimal(n / 10).push(digit_char(n % 10))
    }
}

fn digit(d: u64) -> (c: char)
    requires
        d < 10,
    ensures
        c == digit_char(d as nat),
{
    ((d as u8) + 48) as char
}

proof fn lemma_decimal_len(n: nat)
    ensures
        decimal(n).len() >= 1,
        n >= 10 ==> decimal(n).len() >= 2,
    decreases n,
{
    if n >= 10 {
        lemma_decimal_len(n / 10);
    }
}

/// Distinct numbers have distinct numerals.
pub proof fn lemma_decimal_injective(a: nat, b: nat)
    requires
        decimal(a) == decimal(b),
    ensures
        a == b,
    decreases a,
{
    lemma_decimal_len(a);
    lemma_decimal_len(b);
    if a < 10 && b < 10 {
        assert(decimal(a)[0] == digit_char(a));
        assert(decimal(b)[0] == digit_char(b));
    } else if a >= 10 && b >= 10 {
        assert(decimal(a).last() == digit_char(a % 10));
        assert(decimal(b).last() == digit_char(b % 10));
        assert(decimal(a).drop_last() =~= decimal(a / 10));
        assert(decimal(b).drop_last() =~= decimal(b / 10));
        lemma_decimal_injective(a / 10, b / 10);
    }
}

/// Appends the decimal numeral of `n` to `s`.
pub fn push_decimal(s: &mut String, n: u64)
    ensures
        final(s)@ == old(s)@ + decimal(n as nat),
    decreases n,
{
    if n >= 10 {
        push_decimal(s, n / 10);
    }
    push_char(s, digit(n % 10));
    assert(s@ =~= old(s)@ + decimal(n as nat));
}

pub fn chars_of(s: &str) -> (r: Vec<char>)
    ensures
        r@ == s@,
{
    let mut r: Vec<char> = Vec::new();
    for c in it: s.chars()
        invariant
            r@ == it.seq().take(it.index() as int),
    {
        r.push(c);
    }
    r
}

/// `s` without the characters satisfying `f` at its start.
pub open spec fn trim_start(s: Seq<char>, f: spec_fn(char) -> bool) -> Seq<char>
    decreases s.len(),
{
    if s.len() > 0 && f(s[0]) {
        trim_start(s.drop_first(), f)
    } else {
        s
    }
}

/// `s` without the characters satisfying `f` at its end.
pub open spec fn trim_end(s: Seq<char>, f: spec_fn(char) -> bool) -> Seq<char>
    decreases s.len(),
{
    if s.len() > 0 && f(s.last()) {
        trim_end(s.drop_last(), f)
    } else {
        s
    }
}

/// `s` without the characters satisfying `f` at either end.
pub open spec fn trim(s: Seq<char>, f: spec_fn(char) -> bool) -> Seq<char> {
    trim_end(trim_start(s, f), f)
}

/// The braces that open and close an array literal.
pub open spec fn braces() -> spec_fn(char) -> bool {
    |c: char| c == '{' || c == '}'
}

/// The double quote that encloses an array element.
pub open spec fn quotes() -> spec_fn(char) -> bool {
    |c: char| c == '"'
}

/// [`braces`] or [`quotes`].
pub open spec fn delimiters(brace: bool) -> spec_fn(char) -> bool {
    if brace {
        braces()
    } else {
        quotes()
    }
}

/// The pieces of `s` between commas: one more piece than `s` has commas.
pub open spec fn split_commas(s: Seq<char>) -> Seq<Seq<char>>
    decreases s.len(),
{
    if s.len() == 0 {
        seq![Seq::empty()]
    } else {
        let p = split_commas(s.drop_last());
        if s.last() == ',' {
            p.push(Seq::empty())
        } else {
            p.update(p.len() - 1, p.last().push(s.last()))
        }
    }
}

/// The elements of a Postgres array literal such as `{a,"b c"}`: the braces
/// are trimmed from both ends, the rest is split at each comma, and each
/// element loses the double quotes at its ends.
pub open spec fn text_array(s: Seq<char>) -> Seq<Seq<char>> {
    split_commas(trim(s, braces())).map_values(|e: Seq<char>| trim(e, quotes()))
}

proof fn lemma_split_commas_len(s: Seq<char>)
    ensures
        split_commas(s).len() >= 1,
    decreases s.len(),
{
    if s.len() > 0 {
        lemma_split_commas_len(s.drop_last());
    }
}

/// Index of the first character of `v[lo..hi]` that `f` does not hold of, or `hi`.
fn skip_start(v: &Vec<char>, lo: usize, hi: usize, brace: bool) -> (k: usize)
    requires
        lo <= hi <= v.len(),
    ensures
        lo <= k <= hi,
        trim_start(v@.subrange(lo as int, hi as int), delimiters(brace)) == v@.subrange(k as int, hi as int),
{
    let mut k = lo;
    while k < hi
        invariant
            lo <= k <= hi <= v.len(),
                trim_start(v@.subrange(lo as int, hi as int), delimiters(brace)) == trim_start(v@.subrange(k as int, hi as int), delimiters(brace)),
        decreases hi - k,
    {
        let c = v[k];
        let hit = if brace { c == '{' || c == '}' } else { c == '"' };
        assert(hit == delimiters(brace)(c));
        if !hit {
            assert(!delimiters(brace)(v@.subrange(k as int, hi as int)[0]));
            return k;
        }
        assert(v@.subrange(k as int, hi as int).drop_first() =~= v@.subrange(k + 1, hi as int));
        k = k + 1;
    }
    k
}

/// Index one past the last character of `v[lo..hi]` that `f` does not hold of, or `lo`.
fn skip_end(v: &Vec<char>, lo: usize, hi: usize, brace: bool) -> (k: usize)
    requires
        lo <= hi <= v.len(),
    ensures
        lo <= k <= hi,
        trim_end(v@.subrange(lo as int, hi as int), delimiters(brace)) == v@.subrange(lo as int, k as int),
{
    let mut k = hi;
    while k > lo
        invariant
            lo <= k <= hi <= v.len(),
                trim_end(v@.subrange(lo as int, hi as int), delimiters(brace)) == trim_end(v@.subrange(lo as int, k as int), delimiters(brace)),
        decreases k - lo,
    {
        let c = v[k - 1];
        let hit = if brace { c == '{' || c == '}' } else { c == '"' };
        assert(hit == delimiters(brace)(c));
        if !hit {
            assert(!delimiters(brace)(v@.subrange(lo as int, k as int).last()));
            return k;
        }
        assert(v@.subrange(lo as int, k as int).drop_last() =~= v@.subrange(lo as int, k - 1));
        k = k - 1;
    }
    k
}

/// A string of the characters `v[lo..hi]`.
fn string_of(v: &Vec<char>, lo: usize, hi: usize) -> (r: String)
    requires
        lo <= hi <= v.len(),
    ensures
        r@ == v@.subrange(lo as int, hi as int),
{
    let mut r = String::new();
    let mut k = lo;
    while k < hi
        invariant
            lo <= k <= hi <= v.len(),
            r@ == v@.subrange(lo as int, k as int),
        decreases hi - k,
    {
        push_char(&mut r, v[k]);
        assert(r@ =~= v@.subrange(lo as int, k + 1));
        k = k + 1;
    }
    r
}

/// The element `v[lo..hi]` of an array literal, without its quotes.
fn array_element(v: &Vec<char>, lo: usize, hi: usize) -> (r: String)
    requires
        lo <= hi <= v.len(),
    ensures
        r@ == trim(v@.subrange(lo as int, hi as int), quotes()),
{
    let a = skip_start(v, lo, hi, false);
    let b = skip_end(v, a, hi, false);
    string_of(v, a, b)
}

/// The elements of the Postgres array literal `s`, as [`text_array`] states.
pub fn parse_text_array(s: &str) -> (r: Vec<String>)
    ensures
        r.deep_view() == text_array(s@),
{
    let v = chars_of(s);
    let ghost fb = braces();
    let ghost fq = quotes();
    let lo = skip_start(&v, 0, v.len(), true);
    let hi = skip_end(&v, lo, v.len(), true);
    assert(v@.subrange(0, v.len() as int) =~= v@);
    let ghost body = v@.subrange(lo as int, hi as int);
    assert(trim(s@, fb) == body);
    let mut out: Vec<String> = Vec::new();
    let ghost mut raw: Seq<Seq<char>> = Seq::empty();
    let mut start = lo;
    let mut j = lo;
    assert(v@.subrange(lo as int, lo as int) =~= Seq::<char>::empty());
    assert(raw.push(Seq::<char>::empty()) =~= seq![Seq::<char>::empty()]);
    while j < hi
        invariant
            lo <= start <= j <= hi <= v.len(),
            body == v@.subrange(lo as int, hi as int),
            split_commas(v@.subrange(lo as int, j as int)) == raw.push(v@.subrange(start as int, j as int)),
            out.len() == raw.len(),
            forall|k: int| 0 <= k < raw.len() ==> #[trigger] out@[k]@ == trim(raw[k], fq),
            fq == quotes(),
        decreases hi - j,
    {
        let ghost pre = v@.subrange(lo as int, j as int);
        let ghost next = v@.subrange(lo as int, j + 1);
        assert(next.drop_last() =~= pre);
        assert(next.last() == v@[j as int]);
        proof {
            lemma_split_commas_len(pre);
        }
        if v[j] == ',' {
            let e = array_element(&v, start, j);
            out.push(e);
            proof {
                raw = raw.push(v@.subrange(start as int, j as int));
            }
            start = j + 1;
            assert(v@.subrange(start as int, j + 1) =~= Seq::<char>::empty());
        } else {
            assert(v@.subrange(start as int, j as int).push(v@[j as int]) =~= v@.subrange(start as int, j + 1));
            assert(split_commas(next) =~= raw.push(v@.subrange(start as int, j + 1)));
        }
        j = j + 1;
    }
    assert(v@.subrange(lo as int, j as int) == body);
    let e = array_element(&v, start, hi);
    out.push(e);
    proof {
        raw = raw.push(v@.subrange(start as int, hi as int));
    }
    assert(out.deep_view() =~= raw.map_values(|e: Seq<char>| trim(e, fq)));
    out
}

} // verus!
