//! Character-level text helpers: conversions between strings and characters,
//! ASCII case folding, whitespace trimming and decimal rendering.
use vstd::prelude::*;
use vstd::std_specs::iter::IteratorSpec;
use vstd::utf8::{decode_utf8, valid_utf8};

verus! {

broadcast use {vstd::string::axiom_spec_iter, vstd::string::next_postcondition};

/// The characters of `s`.
pub fn chars_of(s: &str) -> (r: Vec<char>)
    ensures
        r@ == s@,
{
    let mut out: Vec<char> = Vec::new();
    let mut it = s.chars();
    loop
        invariant
            it.obeys_prophetic_iter_laws(),
            it.decrease() is Some,
            s@ == out@ + it.remaining(),
        decreases it.decrease()->0,
    {
        let ghost before = it.remaining();
        match it.next() {
            Some(c) => {
                out.push(c);
                assert(before =~= seq![c] + it.remaining());
            },
            None => {
                assert(s@ =~= out@);
                return out;
            },
        }
    }
}

/// Calls `Iterator::collect` of std to build a `String` from characters. Claimed: the
/// string holds exactly those characters in order.
#[verifier::external_body]
pub(crate) fn string_from_chars(chars: &[char]) -> (r: String)
    ensures
        r@ == chars@,
{
    chars.iter().collect()
}


/// Whether `c` has the Unicode `White_Space` property, as `char::is_whitespace` decides.
pub open spec fn spec_is_whitespace(c: char) -> bool {
    ('\u{9}' <= c && c <= '\u{d}') || c == ' ' || c == '\u{85}' || c == '\u{a0}' || c
        == '\u{1680}' || ('\u{2000}' <= c && c <= '\u{200a}') || c == '\u{2028}' || c
        == '\u{2029}' || c == '\u{202f}' || c == '\u{205f}' || c == '\u{3000}'
}

/// Whether `c` has the Unicode `White_Space` property.
pub fn is_whitespace(c: char) -> (r: bool)
    ensures
        r == spec_is_whitespace(c),
{
    ('\u{9}' <= c && c <= '\u{d}') || c == ' ' || c == '\u{85}' || c == '\u{a0}' || c
        == '\u{1680}' || ('\u{2000}' <= c && c <= '\u{200a}') || c == '\u{2028}' || c
        == '\u{2029}' || c == '\u{202f}' || c == '\u{205f}' || c == '\u{3000}'
}

/// `s` without the leading characters that satisfy `p`.
pub open spec fn spec_trim_start_by(s: Seq<char>, p: spec_fn(char) -> bool) -> Seq<char>
    decreases s.len(),
{
    if s.len() > 0 && p(s[0]) {
        spec_trim_start_by(s.drop_first(), p)
    } else {
        s
    }
}

/// `s` without the trailing characters that satisfy `p`.
pub open spec fn spec_trim_end_by(s: Seq<char>, p: spec_fn(char) -> bool) -> Seq<char>
    decreases s.len(),
{
    if s.len() > 0 && p(s.last()) {
        spec_trim_end_by(s.drop_last(), p)
    } else {
        s
    }
}

/// `s` without leading and trailing whitespace, as `str::trim` gives it.
pub open spec fn spec_trim(s: Seq<char>) -> Seq<char> {
    spec_trim_end_by(spec_trim_start_by(s, |c: char| spec_is_whitespace(c)), |c: char| spec_is_whitespace(c))
}

proof fn lemma_trim_start_first(s: Seq<char>, p: spec_fn(char) -> bool)
    ensures
        spec_trim_start_by(s, p).len() > 0 ==> !p(spec_trim_start_by(s, p)[0]),
    decreases s.len(),
{
    if s.len() > 0 && p(s[0]) {
        lemma_trim_start_first(s.drop_first(), p);
    }
}

proof fn lemma_trim_end_prefix(s: Seq<char>, p: spec_fn(char) -> bool)
    ensures
        spec_trim_end_by(s, p).len() <= s.len(),
        spec_trim_end_by(s, p) == s.take(spec_trim_end_by(s, p).len() as int),
        spec_trim_end_by(s, p).len() > 0 ==> !p(spec_trim_end_by(s, p).last()),
    decreases s.len(),
{
    if s.len() > 0 && p(s.last()) {
        lemma_trim_end_prefix(s.drop_last(), p);
        let r = spec_trim_end_by(s.drop_last(), p);
        assert(s.drop_last().take(r.len() as int) =~= s.take(r.len() as int));
    } else {
        assert(s.take(s.len() as int) =~= s);
    }
}

/// Trimmed text neither starts nor ends with whitespace.
pub proof fn lemma_trim_edges(s: Seq<char>)
    ensures
        spec_trim(s).len() > 0 ==> !spec_is_whitespace(spec_trim(s)[0]) && !spec_is_whitespace(
            spec_trim(s).last(),
        ),
{
    let p = |c: char| spec_is_whitespace(c);
    let t = spec_trim_start_by(s, p);
    lemma_trim_start_first(s, p);
    lemma_trim_end_prefix(t, p);
    let r = spec_trim_end_by(t, p);
    if r.len() > 0 {
        assert(r[0] == t.take(r.len() as int)[0]);
    }
}

proof fn lemma_trim_start_skip(s: Seq<char>, p: spec_fn(char) -> bool, i: int)
    requires
        0 <= i <= s.len(),
        forall|k: int| 0 <= k < i ==> p(#[trigger] s[k]),
    ensures
        spec_trim_start_by(s, p) == spec_trim_start_by(s.skip(i), p),
    decreases i,
{
    if i > 0 {
        assert(s.drop_first().skip(i - 1) =~= s.skip(i));
        assert forall|k: int| 0 <= k < i - 1 implies p(#[trigger] s.drop_first()[k]) by {
            assert(s.drop_first()[k] == s[k + 1]);
        }
        lemma_trim_start_skip(s.drop_first(), p, i - 1);
    } else {
        assert(s.skip(0) =~= s);
    }
}

proof fn lemma_trim_end_take(s: Seq<char>, p: spec_fn(char) -> bool, j: int)
    requires
        0 <= j <= s.len(),
        forall|k: int| j <= k < s.len() ==> p(#[trigger] s[k]),
    ensures
        spec_trim_end_by(s, p) == spec_trim_end_by(s.take(j), p),
    decreases s.len() - j,
{
    if j < s.len() {
        assert(s.drop_last().take(j) =~= s.take(j));
        assert forall|k: int| j <= k < s.drop_last().len() implies p(#[trigger] s.drop_last()[k]) by {
            assert(s.drop_last()[k] == s[k]);
        }
        lemma_trim_end_take(s.drop_last(), p, j);
    } else {
        assert(s.take(j) =~= s);
    }
}

/// The class of characters a trim removes: whitespace, or the characters of `set`.
pub open spec fn char_class(whitespace: bool, set: Seq<char>) -> spec_fn(char) -> bool {
    |c: char|
        if whitespace {
            spec_is_whitespace(c)
        } else {
            set.contains(c)
        }
}

/// `s` without the leading and trailing characters of `set`, as `str::trim_matches` with a
/// set of characters gives it.
pub open spec fn spec_trim_set(s: Seq<char>, set: Seq<char>) -> Seq<char> {
    spec_trim_end_by(spec_trim_start_by(s, char_class(false, set)), char_class(false, set))
}

/// The characters of `v` without leading and trailing whitespace.
pub fn trim_whitespace(v: &[char]) -> (r: Vec<char>)
    ensures
        r@ == spec_trim(v@),
{
    let empty: &[char] = &[];
    let r = trim_chars_by(v, true, empty);
    proof {
        lemma_whitespace_class(empty@);
    }
    r
}

proof fn lemma_whitespace_class(set: Seq<char>)
    ensures
        char_class(true, set) == (|c: char| spec_is_whitespace(c)),
{
    assert(char_class(true, set) =~= (|c: char| spec_is_whitespace(c)));
}

/// The characters of `v` without the leading and trailing ones that occur in `set`.
pub fn trim_set(v: &[char], set: &[char]) -> (r: Vec<char>)
    ensures
        r@ == spec_trim_set(v@, set@),
{
    trim_chars_by(v, false, set)
}

/// The characters of `v` without the leading ones in `set` and the trailing ones in `set`
/// (whitespace when `whitespace` holds, else the characters of `set`).
pub fn trim_chars_by(v: &[char], whitespace: bool, set: &[char]) -> (r: Vec<char>)
    ensures
        r@ == spec_trim_end_by(
            spec_trim_start_by(v@, char_class(whitespace, set@)),
            char_class(whitespace, set@),
        ),
{
    let ghost p = char_class(whitespace, set@);
    let mut i: usize = 0;
    while i < v.len() && matches_class(v[i], whitespace, set)
        invariant
            i <= v@.len(),
            forall|k: int| 0 <= k < i ==> p(#[trigger] v@[k]),
            forall|c: char| #[trigger] p(c) == (if whitespace { spec_is_whitespace(c) } else { set@.contains(c) }),
        decreases v@.len() - i,
    {
        i = i + 1;
    }
    proof {
        lemma_trim_start_skip(v@, p, i as int);
    }
    let ghost rest = v@.skip(i as int);
    assert(spec_trim_start_by(rest, p) == rest);
    let mut j: usize = v.len();
    while j > i && matches_class(v[j - 1], whitespace, set)
        invariant
            i <= j <= v@.len(),
            rest == v@.skip(i as int),
            forall|k: int| j - i <= k < rest.len() ==> p(#[trigger] rest[k]),
            forall|c: char| #[trigger] p(c) == (if whitespace { spec_is_whitespace(c) } else { set@.contains(c) }),
        decreases j,
    {
        assert(rest[j - 1 - i] == v@[j - 1]);
        j = j - 1;
    }
    proof {
        lemma_trim_end_take(rest, p, (j - i) as int);
    }
    let out = copy_chars(v, i, j);
    assert(out@ =~= rest.take((j - i) as int));
    out
}

fn matches_class(c: char, whitespace: bool, set: &[char]) -> (r: bool)
    ensures
        r == (if whitespace {
            spec_is_whitespace(c)
        } else {
            set@.contains(c)
        }),
{
    if whitespace {
        is_whitespace(c)
    } else {
        contains_char(set, c)
    }
}

/// Whether `c` occurs in `set`.
pub fn contains_char(set: &[char], c: char) -> (r: bool)
    ensures
        r == set@.contains(c),
{
    let mut i: usize = 0;
    while i < set.len()
        invariant
            i <= set@.len(),
            forall|k: int| 0 <= k < i ==> set@[k] != c,
        decreases set@.len() - i,
    {
        if set[i] == c {
            assert(set@[i as int] == c);
            return true;
        }
        i = i + 1;
    }
    false
}

/// A copy of `v[start..end]`.
pub fn copy_chars(v: &[char], start: usize, end: usize) -> (r: Vec<char>)
    requires
        start <= end <= v@.len(),
    ensures
        r@ == v@.subrange(start as int, end as int),
{
    let mut out: Vec<char> = Vec::new();
    let mut i: usize = start;
    while i < end
        invariant
            start <= i <= end,
            end <= v@.len(),
            out@ == v@.subrange(start as int, i as int),
        decreases end - i,
    {
        out.push(v[i]);
        i = i + 1;
        assert(v@.subrange(start as int, i as int) =~= v@.subrange(start as int, i - 1).push(
            v@[i - 1],
        ));
    }
    out
}

/// `c` with ASCII upper-case letters turned into lower-case ones.
pub open spec fn spec_ascii_lower(c: char) -> char {
    if 'A' <= c && c <= 'Z' {
        ((c as u32) + 32) as char
    } else {
        c
    }
}

/// `s` with every ASCII upper-case letter turned into lower case, as
/// `str::to_ascii_lowercase` gives it.
pub open spec fn spec_lower(s: Seq<char>) -> Seq<char> {
    s.map_values(|c: char| spec_ascii_lower(c))
}

/// `c` with ASCII upper-case letters turned into lower-case ones.
pub fn ascii_lower(c: char) -> (r: char)
    ensures
        r == spec_ascii_lower(c),
{
    if 'A' <= c && c <= 'Z' {
        let r = ((c as u8) + 32) as char;
        assert(r == ((c as u32) + 32) as char);
        r
    } else {
        c
    }
}

/// The characters of `v` with ASCII letters in lower case.
pub fn lower_chars(v: &[char]) -> (r: Vec<char>)
    ensures
        r@ == spec_lower(v@),
{
    let mut out: Vec<char> = Vec::new();
    let mut i: usize = 0;
    while i < v.len()
        invariant
            i <= v@.len(),
            out@ == spec_lower(v@.take(i as int)),
        decreases v@.len() - i,
    {
        out.push(ascii_lower(v[i]));
        i = i + 1;
        assert(spec_lower(v@.take(i as int)) =~= spec_lower(v@.take(i - 1)).push(
            spec_ascii_lower(v@[i - 1]),
        ));
    }
    assert(v@.take(i as int) =~= v@);
    out
}

/// `s` with each non-overlapping occurrence of `from`, found left to right, replaced by
/// `to`, as `str::replace` does it.
pub open spec fn spec_replace(s: Seq<char>, from: Seq<char>, to: Seq<char>) -> Seq<char>
    decreases s.len(),
{
    if from.len() == 0 || s.len() < from.len() {
        s
    } else if s.take(from.len() as int) == from {
        to + spec_replace(s.skip(from.len() as int), from, to)
    } else {
        seq![s[0]] + spec_replace(s.drop_first(), from, to)
    }
}

/// Replacing never brings in a character that `to` lacks: the result lacks `x` when `to`
/// does and either `s` lacks it too or `x` alone is what gets replaced.
pub proof fn lemma_replace_lacks(s: Seq<char>, from: Seq<char>, to: Seq<char>, x: char)
    requires
        forall|i: int| 0 <= i < to.len() ==> to[i] != x,
        (forall|i: int| 0 <= i < s.len() ==> s[i] != x) || from == seq![x],
    ensures
        forall|i: int|
            0 <= i < spec_replace(s, from, to).len() ==> #[trigger] spec_replace(s, from, to)[i]
                != x,
    decreases s.len(),
{
    let r = spec_replace(s, from, to);
    if from.len() == 0 || s.len() < from.len() {
        if from == seq![x] {
            assert(s.len() == 0);
        }
    } else if s.take(from.len() as int) == from {
        let rest = s.skip(from.len() as int);
        if !(from == seq![x]) {
            assert forall|i: int| 0 <= i < rest.len() implies rest[i] != x by {
                assert(rest[i] == s[i + from.len()]);
            }
        }
        lemma_replace_lacks(rest, from, to, x);
        let t = spec_replace(rest, from, to);
        assert(r == to + t);
        assert forall|i: int| 0 <= i < r.len() implies #[trigger] r[i] != x by {
            if i >= to.len() {
                assert(r[i] == t[i - to.len()]);
            }
        }
    } else {
        let rest = s.drop_first();
        if from == seq![x] {
            assert(s.take(1) =~= seq![s[0]]);
            assert(s[0] != x);
        }
        if !(from == seq![x]) {
            assert forall|i: int| 0 <= i < rest.len() implies rest[i] != x by {
                assert(rest[i] == s[i + 1]);
            }
        }
        lemma_replace_lacks(rest, from, to, x);
        let t = spec_replace(rest, from, to);
        assert(r == seq![s[0]] + t);
        assert forall|i: int| 0 <= i < r.len() implies #[trigger] r[i] != x by {
            if i >= 1 {
                assert(r[i] == t[i - 1]);
            }
        }
    }
}

/// `v` with each non-overlapping occurrence of `from` replaced by `to`.
pub fn replace_chars(v: &[char], from: &[char], to: &[char]) -> (r: Vec<char>)
    requires
        from@.len() > 0,
    ensures
        r@ == spec_replace(v@, from@, to@),
{
    let mut out: Vec<char> = Vec::new();
    let mut i: usize = 0;
    assert(v@.skip(0) =~= v@);
    while i < v.len()
        invariant
            i <= v@.len(),
            from@.len() > 0,
            out@ + spec_replace(v@.skip(i as int), from@, to@) == spec_replace(v@, from@, to@),
        ensures
            i <= v@.len(),
            v@.len() - i < from@.len(),
            out@ + spec_replace(v@.skip(i as int), from@, to@) == spec_replace(v@, from@, to@),
        decreases v@.len() - i,
    {
        let ghost rest = v@.skip(i as int);
        if v.len() - i < from.len() {
            break;
        }
        if chars_match_at(v, i, from) {
            assert(rest.take(from@.len() as int) =~= from@);
            assert(rest.skip(from@.len() as int) =~= v@.skip(i + from@.len()));
            let mut k: usize = 0;
            let ghost before = out@;
            while k < to.len()
                invariant
                    k <= to@.len(),
                    out@ == before + to@.take(k as int),
                decreases to@.len() - k,
            {
                out.push(to[k]);
                k = k + 1;
                assert(to@.take(k as int) =~= to@.take(k - 1).push(to@[k - 1]));
            }
            assert(to@.take(k as int) =~= to@);
            assert(out@ + spec_replace(v@.skip(i + from@.len()), from@, to@) =~= before + (to@
                + spec_replace(rest.skip(from@.len() as int), from@, to@)));
            i = i + from.len();
        } else {
            assert(rest.take(from@.len() as int) != from@);
            assert(rest.drop_first() =~= v@.skip(i + 1));
            let ghost before = out@;
            out.push(v[i]);
            assert(out@ + spec_replace(v@.skip(i + 1), from@, to@) =~= before + (seq![rest[0]]
                + spec_replace(rest.drop_first(), from@, to@)));
            i = i + 1;
        }
    }
    let ghost tail = v@.skip(i as int);
    assert(spec_replace(tail, from@, to@) == tail);
    let mut k: usize = i;
    let ghost before = out@;
    while k < v.len()
        invariant
            i <= k <= v@.len(),
            out@ == before + v@.subrange(i as int, k as int),
        decreases v@.len() - k,
    {
        out.push(v[k]);
        k = k + 1;
        assert(v@.subrange(i as int, k as int) =~= v@.subrange(i as int, k - 1).push(v@[k - 1]));
    }
    assert(v@.subrange(i as int, k as int) =~= tail);
    out
}

/// Whether `v[at..]` begins with `pattern`.
pub fn chars_match_at(v: &[char], at: usize, pattern: &[char]) -> (r: bool)
    requires
        at <= v@.len(),
    ensures
        r == (v@.len() - at >= pattern@.len() && v@.skip(at as int).take(pattern@.len() as int)
            == pattern@),
{
    if v.len() - at < pattern.len() {
        return false;
    }
    assert(at + pattern@.len() <= v@.len());
    let n = v.len();
    let mut k: usize = 0;
    while k < pattern.len()
        invariant
            n == v@.len(),
            k <= pattern@.len(),
            at + pattern@.len() <= v@.len(),
            forall|j: int| 0 <= j < k ==> v@[at + j] == pattern@[j],
        decreases pattern@.len() - k,
    {
        assert(at + k < v@.len());
        if v[at + k] != pattern[k] {
            assert(v@.skip(at as int).take(pattern@.len() as int)[k as int] != pattern@[k as int]);
            return false;
        }
        k = k + 1;
    }
    assert(v@.skip(at as int).take(pattern@.len() as int) =~= pattern@);
    true
}

/// The decimal digits of `v`, most significant first.
pub open spec fn spec_decimal(v: nat) -> Seq<char>
    decreases v,
{
    if v < 10 {
        seq![(('0' as u32) + v) as char]
    } else {
        spec_decimal(v / 10).push((('0' as u32) + (v % 10)) as char)
    }
}

/// Appends the decimal digits of `v`.
pub fn push_decimal(out: &mut Vec<char>, v: u64)
    ensures
        final(out)@ == old(out)@ + spec_decimal(v as nat),
    decreases v,
{
    if v >= 10 {
        push_decimal(out, v / 10);
    }
    let d = (v % 10) as u32;
    let c = ((('0' as u32) + d) as u8) as char;
    assert(c == (('0' as u32) + (v % 10)) as char);
    out.push(c);
}

/// Appends the characters of `s`.
pub fn push_str(out: &mut Vec<char>, s: &str)
    ensures
        final(out)@ == old(out)@ + s@,
{
    let cs = chars_of(s);
    let ghost before = out@;
    let mut i: usize = 0;
    while i < cs.len()
        invariant
            i <= cs@.len(),
            out@ == before + cs@.take(i as int),
        decreases cs@.len() - i,
    {
        out.push(cs[i]);
        i = i + 1;
        assert(cs@.take(i as int) =~= cs@.take(i - 1).push(cs@[i - 1]));
    }
    assert(cs@.take(i as int) =~= cs@);
}

/// The characters of `v` without the leading occurrences of `c`, as
/// `str::trim_start_matches` with a character gives it.
pub fn trim_start_char(v: &[char], c: char) -> (r: Vec<char>)
    ensures
        r@ == spec_trim_start_by(v@, |x: char| x == c),
{
    let ghost p = |x: char| x == c;
    let mut i: usize = 0;
    while i < v.len() && v[i] == c
        invariant
            i <= v@.len(),
            forall|k: int| 0 <= k < i ==> #[trigger] v@[k] == c,
        decreases v@.len() - i,
    {
        i = i + 1;
    }
    proof {
        assert forall|k: int| 0 <= k < i implies p(#[trigger] v@[k]) by {
            assert(v@[k] == c);
        }
        lemma_trim_start_skip(v@, p, i as int);
        assert(spec_trim_start_by(v@.skip(i as int), p) == v@.skip(i as int));
    }
    let out = copy_chars(v, i, v.len());
    assert(out@ =~= v@.skip(i as int));
    out
}

/// Whether `a` comes before `b` in lexicographic order of code points, the order in which
/// std compares `String`s (UTF-8 byte order and code point order agree).
pub open spec fn lex_lt(a: Seq<char>, b: Seq<char>) -> bool
    decreases a.len(),
{
    if a.len() == 0 {
        b.len() > 0
    } else if b.len() == 0 {
        false
    } else if a[0] != b[0] {
        (a[0] as int) < (b[0] as int)
    } else {
        lex_lt(a.drop_first(), b.drop_first())
    }
}

/// Lexicographic order is a strict total order.
pub proof fn lemma_lex_order(a: Seq<char>, b: Seq<char>, c: Seq<char>)
    ensures
        !lex_lt(a, a),
        lex_lt(a, b) ==> !lex_lt(b, a),
        a != b ==> lex_lt(a, b) || lex_lt(b, a),
        lex_lt(a, b) && lex_lt(b, c) ==> lex_lt(a, c),
    decreases a.len(),
{
    if a.len() > 0 && b.len() > 0 && c.len() > 0 {
        lemma_lex_order(a.drop_first(), b.drop_first(), c.drop_first());
        assert(a[0] != b[0] ==> (a[0] as int) != (b[0] as int));
        if a[0] == b[0] && a.drop_first() == b.drop_first() {
            assert(a =~= seq![a[0]] + a.drop_first());
            assert(b =~= seq![b[0]] + b.drop_first());
        }
    } else if a.len() > 0 && b.len() > 0 {
        lemma_lex_order(a.drop_first(), b.drop_first(), b.drop_first());
        assert(a[0] != b[0] ==> (a[0] as int) != (b[0] as int));
        if a[0] == b[0] && a.drop_first() == b.drop_first() {
            assert(a =~= seq![a[0]] + a.drop_first());
            assert(b =~= seq![b[0]] + b.drop_first());
        }
    } else if a.len() > 0 {
        lemma_lex_order(a.drop_first(), a.drop_first(), a.drop_first());
    } else {
        if b.len() == 0 {
            assert(a =~= b);
        }
    }
}

/// Whether `a` comes before `b` in lexicographic order.
pub fn chars_less(a: &[char], b: &[char]) -> (r: bool)
    ensures
        r == lex_lt(a@, b@),
{
    let mut i: usize = 0;
    assert(a@.skip(0) =~= a@);
    assert(b@.skip(0) =~= b@);
    while i < a.len() && i < b.len()
        invariant
            i <= a@.len(),
            i <= b@.len(),
            lex_lt(a@, b@) == lex_lt(a@.skip(i as int), b@.skip(i as int)),
        decreases a@.len() - i,
    {
        let ghost sa = a@.skip(i as int);
        let ghost sb = b@.skip(i as int);
        assert(sa[0] == a@[i as int]);
        assert(sb[0] == b@[i as int]);
        if a[i] != b[i] {
            return a[i] < b[i];
        }
        assert(sa.drop_first() =~= a@.skip(i + 1));
        assert(sb.drop_first() =~= b@.skip(i + 1));
        i = i + 1;
    }
    a.len() - i < b.len() - i
}

/// Whether `a` and `b` hold the same characters.
pub fn chars_equal(a: &[char], b: &[char]) -> (r: bool)
    ensures
        r == (a@ == b@),
{
    if a.len() != b.len() {
        return false;
    }
    let mut i: usize = 0;
    while i < a.len()
        invariant
            a@.len() == b@.len(),
            i <= a@.len(),
            forall|k: int| 0 <= k < i ==> a@[k] == b@[k],
        decreases a@.len() - i,
    {
        if a[i] != b[i] {
            return false;
        }
        i = i + 1;
    }
    assert(a@ =~= b@);
    true
}

/// The text ASCII bytes stand for: each byte is its own character.
pub open spec fn ascii_text(bytes: Seq<u8>) -> Seq<char> {
    bytes.map_values(|b: u8| b as char)
}

/// Bytes below 0x80 are valid UTF-8 and decode to one character each.
pub proof fn lemma_ascii_utf8(bytes: Seq<u8>)
    requires
        forall|i: int| 0 <= i < bytes.len() ==> bytes[i] < 0x80,
    ensures
        valid_utf8(bytes),
        decode_utf8(bytes) == ascii_text(bytes),
    decreases bytes.len(),
{
    if bytes.len() > 0 {
        let b0 = bytes[0];
        assert((b0 & 0x7F) == b0) by (bit_vector)
            requires
                b0 < 0x80u8,
        ;
        assert(vstd::utf8::pop_first_scalar(bytes) =~= bytes.drop_first());
        lemma_ascii_utf8(bytes.drop_first());
        assert(decode_utf8(bytes) =~= ascii_text(bytes)) by {
            assert(ascii_text(bytes) =~= seq![b0 as char] + ascii_text(bytes.drop_first()));
        }
    }
}

/// What `String::from_utf8_lossy` makes of `bytes`.
pub uninterp spec fn utf8_lossy(bytes: Seq<u8>) -> Seq<char>;

/// Calls `String::from_utf8_lossy`. Claimed: the result is a function of the bytes, and
/// for valid UTF-8 it is exactly the decoded text.
#[verifier::external_body]
pub(crate) fn string_from_utf8_lossy(bytes: &[u8]) -> (r: String)
    ensures
        r@ == utf8_lossy(bytes@),
        valid_utf8(bytes@) ==> r@ == decode_utf8(bytes@),
{
    String::from_utf8_lossy(bytes).into_owned()
}

/// Calls `std::str::from_utf8` and reports whether it accepts `bytes`. Claimed: it does
/// exactly when the bytes are valid UTF-8.
#[verifier::external_body]
pub(crate) fn is_valid_utf8(bytes: &[u8]) -> (r: bool)
    ensures
        r == valid_utf8(bytes@),
{
    std::str::from_utf8(bytes).is_ok()
}

} // verus!
