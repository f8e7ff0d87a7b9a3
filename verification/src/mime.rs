//! MIME type repair and canonicalization against a catalog of known media types:
//! typo correction, exact lookup, and fuzzy lookup by edit distance.
use vstd::prelude::*;
use vstd::string::StringSliceAdditionalSpecFns;
use vstd::utf8::encode_utf8;

use crate::text::{
    chars_equal, chars_less, chars_of, lemma_lex_order, lemma_replace_lacks, lex_lt, lower_chars, replace_chars,
    spec_lower, spec_replace, spec_trim, spec_trim_set, string_from_chars, trim_set,
    trim_whitespace,
};

verus! {

/// The characters trimmed from both ends of a MIME type besides whitespace.
pub open spec fn mime_trim_set() -> Seq<char> {
    seq![';', ',', '.', '"', '\'']
}

/// A MIME type with surrounding whitespace and punctuation trimmed, lower-cased, the
/// common misspellings of `application/` corrected, backslashes turned into slashes and
/// spaces beside slashes removed.
pub open spec fn spec_clean_mime(mime: Seq<char>) -> Seq<char> {
    let t = spec_trim_set(spec_trim(mime), mime_trim_set());
    if t.len() == 0 {
        Seq::empty()
    } else {
        let lowered = spec_lower(t);
        let a = spec_replace(lowered, "aapplication/"@, "application/"@);
        let b = spec_replace(a, "applicaiton/"@, "application/"@);
        let c = spec_replace(b, "appliction/"@, "application/"@);
        let d = spec_replace(c, "\\"@, "/"@);
        let e = spec_replace(d, " /"@, "/"@);
        spec_replace(e, "/ "@, "/"@)
    }
}

/// A cleaned MIME type contains no backslash: each backslash of the input becomes a slash.
pub proof fn lemma_clean_mime_has_no_backslash(mime: Seq<char>)
    ensures
        forall|i: int|
            0 <= i < spec_clean_mime(mime).len() ==> #[trigger] spec_clean_mime(mime)[i] != '\\',
{
    reveal_strlit("\\");
    reveal_strlit("/");
    reveal_strlit(" /");
    reveal_strlit("/ ");
    let t = spec_trim_set(spec_trim(mime), mime_trim_set());
    if t.len() > 0 {
        let lowered = spec_lower(t);
        let a = spec_replace(lowered, "aapplication/"@, "application/"@);
        let b = spec_replace(a, "applicaiton/"@, "application/"@);
        let c = spec_replace(b, "appliction/"@, "application/"@);
        assert("\\"@ =~= seq!['\\']);
        assert("/"@ =~= seq!['/']);
        assert(" /"@ =~= seq![' ', '/']);
        assert("/ "@ =~= seq!['/', ' ']);
        lemma_replace_lacks(c, "\\"@, "/"@, '\\');
        let d = spec_replace(c, "\\"@, "/"@);
        lemma_replace_lacks(d, " /"@, "/"@, '\\');
        let e = spec_replace(d, " /"@, "/"@);
        lemma_replace_lacks(e, "/ "@, "/"@, '\\');
    }
}

fn replace_text(v: Vec<char>, from: &str, to: &str) -> (r: Vec<char>)
    requires
        from@.len() > 0,
    ensures
        r@ == spec_replace(v@, from@, to@),
{
    let f = chars_of(from);
    let t = chars_of(to);
    replace_chars(v.as_slice(), f.as_slice(), t.as_slice())
}

/// Repairs a MIME type: trims whitespace and `; , . " '` from both ends, lower-cases it,
/// corrects common misspellings of `application/`, turns backslashes into slashes and
/// removes spaces beside slashes.
pub fn clean_basic_mime_type(mime_type: &str) -> (r: String)
    ensures
        r@ == spec_clean_mime(mime_type@),
{
    let cs = chars_of(mime_type);
    let trimmed = trim_whitespace(cs.as_slice());
    let set = [';', ',', '.', '"', '\''];
    assert(set@ == mime_trim_set());
    let t = trim_set(trimmed.as_slice(), set.as_slice());
    if t.len() == 0 {
        return String::new();
    }
    proof {
        reveal_strlit("aapplication/");
        reveal_strlit("applicaiton/");
        reveal_strlit("appliction/");
        reveal_strlit("\\");
        reveal_strlit(" /");
        reveal_strlit("/ ");
    }
    let lowered = lower_chars(t.as_slice());
    let a = replace_text(lowered, "aapplication/", "application/");
    let b = replace_text(a, "applicaiton/", "application/");
    let c = replace_text(b, "appliction/", "application/");
    let d = replace_text(c, "\\", "/");
    let e = replace_text(d, " /", "/");
    let f = replace_text(e, "/ ", "/");
    string_from_chars(f.as_slice())
}

/// The cost of aligning two bytes: zero when equal, one otherwise.
pub open spec fn substitution_cost(x: u8, y: u8) -> nat {
    if x == y {
        0
    } else {
        1
    }
}

/// The least of three numbers.
pub open spec fn min3(x: nat, y: nat, z: nat) -> nat {
    let m = if x <= y {
        x
    } else {
        y
    };
    if m <= z {
        m
    } else {
        z
    }
}

/// The Levenshtein distance between two byte strings: the fewest single-byte insertions,
/// deletions and substitutions that turn one into the other.
pub open spec fn edit_distance(a: Seq<u8>, b: Seq<u8>) -> nat
    decreases a.len() + b.len(),
{
    if a.len() == 0 {
        b.len()
    } else if b.len() == 0 {
        a.len()
    } else {
        min3(
            edit_distance(a.drop_last(), b) + 1,
            edit_distance(a, b.drop_last()) + 1,
            edit_distance(a.drop_last(), b.drop_last()) + substitution_cost(a.last(), b.last()),
        )
    }
}

proof fn lemma_edit_distance_bound(a: Seq<u8>, b: Seq<u8>)
    ensures
        edit_distance(a, b) <= (if a.len() >= b.len() { a.len() } else { b.len() }),
    decreases a.len() + b.len(),
{
    if a.len() > 0 && b.len() > 0 {
        lemma_edit_distance_bound(a.drop_last(), b.drop_last());
    }
}

/// The Levenshtein distance between the bytes of two strings.
pub fn levenshtein_distance(left: &str, right: &str) -> (r: usize)
    ensures
        r == edit_distance(left.spec_bytes(), right.spec_bytes()),
{
    let a = left.as_bytes();
    let b = right.as_bytes();
    let n = a.len();
    let m = b.len();
    let mut previous: Vec<u128> = Vec::new();
    previous.push(0);
    for j in 0..m
        invariant
            m == b@.len(),
            previous.len() == j + 1,
            forall|k: int| 0 <= k <= j ==> previous@[k] == k,
    {
        previous.push((j + 1) as u128);
    }
    proof {
        assert(a@.take(0).len() == 0);
        assert forall|k: int| 0 <= k <= m implies previous@[k] == edit_distance(a@.take(0), b@.take(k)) by {
            assert(b@.take(k).len() == k);
        }
    }
    for i in 0..n
        invariant
            n == a@.len(),
            m == b@.len(),
            previous.len() == m + 1,
            forall|k: int| 0 <= k <= m ==> previous@[k] == edit_distance(a@.take(i as int), b@.take(k)),
    {
        let mut current: Vec<u128> = Vec::new();
        current.push((i + 1) as u128);
        proof {
            assert(b@.take(0).len() == 0);
            assert(a@.take(i + 1).len() == i + 1);
        }
        for k in 0..m
            invariant
                n == a@.len(),
                m == b@.len(),
                i < n,
                previous.len() == m + 1,
                current.len() == k + 1,
                forall|q: int| 0 <= q <= m ==> previous@[q] == edit_distance(a@.take(i as int), b@.take(q)),
                forall|q: int| 0 <= q <= k ==> current@[q] == edit_distance(a@.take(i + 1), b@.take(q)),
        {
            proof {
                lemma_edit_distance_bound(a@.take(i as int), b@.take(k + 1));
                lemma_edit_distance_bound(a@.take(i + 1), b@.take(k as int));
                lemma_edit_distance_bound(a@.take(i as int), b@.take(k as int));
            }
            let cost: u128 = if a[i] == b[k] {
                0
            } else {
                1
            };
            let up = previous[k + 1] + 1;
            let left_cell = current[k] + 1;
            let diagonal = previous[k] + cost;
            let best = if up <= left_cell {
                up
            } else {
                left_cell
            };
            let best = if best <= diagonal {
                best
            } else {
                diagonal
            };
            proof {
                let x = a@.take(i + 1);
                let y = b@.take(k + 1);
                assert(x.drop_last() =~= a@.take(i as int));
                assert(y.drop_last() =~= b@.take(k as int));
                assert(x.last() == a@[i as int]);
                assert(y.last() == b@[k as int]);
            }
            current.push(best);
        }
        previous = current;
    }
    proof {
        assert(a@.take(n as int) =~= a@);
        assert(b@.take(m as int) =~= b@);
        lemma_edit_distance_bound(a@, b@);
    }
    previous[m] as usize
}

/// The pieces of `s` between line feeds, the last one possibly empty.
pub open spec fn spec_split_lines(s: Seq<char>) -> Seq<Seq<char>>
    decreases s.len(),
{
    if s.len() == 0 {
        seq![Seq::empty()]
    } else {
        let rest = spec_split_lines(s.drop_last());
        if s.last() == '\n' {
            rest.push(Seq::empty())
        } else {
            rest.update(rest.len() - 1, rest.last().push(s.last()))
        }
    }
}

pub(crate) proof fn lemma_split_lines_nonempty(s: Seq<char>)
    ensures
        spec_split_lines(s).len() >= 1,
    decreases s.len(),
{
    if s.len() > 0 {
        lemma_split_lines_nonempty(s.drop_last());
    }
}

/// The entry a catalog line gives: the line trimmed and lower-cased.
pub open spec fn spec_entry(line: Seq<char>) -> Seq<char> {
    spec_lower(spec_trim(line))
}

/// The entries of a catalog text: its lines trimmed and lower-cased, blank lines left out.
pub open spec fn spec_entries(text: Seq<char>) -> Set<Seq<char>> {
    Set::new(
        |e: Seq<char>|
            exists|i: int|
                0 <= i < spec_split_lines(text).len() && spec_trim(
                    #[trigger] spec_split_lines(text)[i],
                ).len() > 0 && e == spec_entry(spec_split_lines(text)[i]),
    )
}

fn push_entry(entries: &mut Vec<Vec<char>>, line: &Vec<char>)
    ensures
        final(entries)@.len() >= old(entries)@.len(),
        forall|k: int| 0 <= k < old(entries)@.len() ==> final(entries)@[k] == old(entries)@[k],
        spec_trim(line@).len() > 0 ==> final(entries)@.len() == old(entries)@.len() + 1
            && final(entries)@.last()@ == spec_entry(line@),
        spec_trim(line@).len() == 0 ==> final(entries)@ == old(entries)@,
{
    let trimmed = trim_whitespace(line.as_slice());
    if trimmed.len() > 0 {
        let lowered = lower_chars(trimmed.as_slice());
        entries.push(lowered);
    }
}

/// The characters of each entry.
pub open spec fn entries_view(v: Seq<Vec<char>>) -> Seq<Seq<char>> {
    v.map_values(|x: Vec<char>| x@)
}

/// Whether one of the first `upto` pieces gives entry `e`.
pub open spec fn piece_gives(pieces: Seq<Seq<char>>, upto: int, e: Seq<char>) -> bool {
    exists|p: int| 0 <= p < upto && spec_trim(#[trigger] pieces[p]).len() > 0 && e == spec_entry(pieces[p])
}

/// The entries of a catalog text, in line order (repeats kept).
pub fn load_word_list(text: &str) -> (r: Vec<Vec<char>>)
    ensures
        forall|e: Seq<char>| #[trigger] spec_entries(text@).contains(e) <==> entries_view(r@).contains(e),
{
    let cs = chars_of(text);
    let mut entries: Vec<Vec<char>> = Vec::new();
    let mut line: Vec<char> = Vec::new();
    for i in 0..cs.len()
        invariant
            ({
                let pieces = spec_split_lines(cs@.take(i as int));
                &&& pieces.len() >= 1
                &&& line@ == pieces.last()
                &&& forall|e: Seq<char>| #[trigger] entries_view(entries@).contains(e) <==> piece_gives(
                    pieces,
                    pieces.len() - 1,
                    e,
                )
            }),
    {
        let c = cs[i];
        let ghost before = spec_split_lines(cs@.take(i as int));
        let ghost old_entries = entries@;
        proof {
            lemma_split_lines_nonempty(cs@.take(i as int));
            assert(cs@.take(i + 1).drop_last() =~= cs@.take(i as int));
            assert(cs@.take(i + 1).last() == c);
        }
        if c == '\n' {
            push_entry(&mut entries, &line);
            line = Vec::new();
            proof {
                let after = spec_split_lines(cs@.take(i + 1));
                assert(after == before.push(Seq::empty()));
                assert(line@ =~= after.last());
                assert forall|e: Seq<char>| #[trigger] entries_view(entries@).contains(e) <==> piece_gives(
                    after,
                    after.len() - 1,
                    e,
                ) by {
                    if entries_view(entries@).contains(e) {
                        let k = choose|k: int| 0 <= k < entries_view(entries@).len() && entries_view(entries@)[k] == e;
                        if k < old_entries.len() {
                            assert(entries_view(old_entries)[k] == e);
                            assert(entries_view(old_entries).contains(e));
                            let p = choose|p: int|
                                0 <= p < before.len() - 1 && spec_trim(#[trigger] before[p]).len() > 0 && e
                                    == spec_entry(before[p]);
                            assert(after[p] == before[p]);
                        } else {
                            assert(after[before.len() - 1] == before.last());
                        }
                    }
                    if piece_gives(after, after.len() - 1, e) {
                        let p = choose|p: int|
                            0 <= p < after.len() - 1 && spec_trim(#[trigger] after[p]).len() > 0 && e
                                == spec_entry(after[p]);
                        if p < before.len() - 1 {
                            assert(after[p] == before[p]);
                            assert(piece_gives(before, before.len() - 1, e));
                            assert(entries_view(old_entries).contains(e));
                            let k = choose|k: int| 0 <= k < entries_view(old_entries).len() && entries_view(old_entries)[k] == e;
                            assert(entries_view(entries@)[k] == e);
                        } else {
                            assert(entries_view(entries@)[entries.len() - 1] == e);
                        }
                    }
                }
            }
        } else {
            line.push(c);
            proof {
                let after = spec_split_lines(cs@.take(i + 1));
                assert(after == before.update(before.len() - 1, before.last().push(c)));
                assert(line@ =~= after.last());
                assert forall|e: Seq<char>| #[trigger] entries_view(entries@).contains(e) <==> piece_gives(
                    after,
                    after.len() - 1,
                    e,
                ) by {
                    assert forall|p: int| 0 <= p < after.len() - 1 implies after[p] == before[p] by {}
                    if piece_gives(after, after.len() - 1, e) {
                        let p = choose|p: int|
                            0 <= p < after.len() - 1 && spec_trim(#[trigger] after[p]).len() > 0 && e
                                == spec_entry(after[p]);
                        assert(before[p] == after[p]);
                    }
                    if piece_gives(before, before.len() - 1, e) {
                        let p = choose|p: int|
                            0 <= p < before.len() - 1 && spec_trim(#[trigger] before[p]).len() > 0 && e
                                == spec_entry(before[p]);
                        assert(before[p] == after[p]);
                    }
                }
            }
        }
    }
    let ghost old_entries = entries@;
    push_entry(&mut entries, &line);
    proof {
        let pieces = spec_split_lines(cs@.take(cs.len() as int));
        assert(cs@.take(cs.len() as int) =~= cs@);
        assert forall|e: Seq<char>| #[trigger] spec_entries(text@).contains(e) <==> entries_view(entries@).contains(e) by {
            if entries_view(entries@).contains(e) {
                let k = choose|k: int| 0 <= k < entries_view(entries@).len() && entries_view(entries@)[k] == e;
                if k < old_entries.len() {
                    assert(entries_view(old_entries)[k] == e);
                    assert(entries_view(old_entries).contains(e));
                    let p = choose|p: int|
                        0 <= p < pieces.len() - 1 && spec_trim(#[trigger] pieces[p]).len() > 0 && e
                            == spec_entry(pieces[p]);
                    assert(spec_entries(text@).contains(e));
                } else {
                    assert(spec_trim(pieces[pieces.len() - 1]).len() > 0 && e == spec_entry(pieces[pieces.len() - 1]));
                    assert(spec_entries(text@).contains(e));
                }
            }
            if spec_entries(text@).contains(e) {
                let p = choose|p: int|
                    0 <= p < pieces.len() && spec_trim(#[trigger] pieces[p]).len() > 0 && e
                        == spec_entry(pieces[p]);
                if p < pieces.len() - 1 {
                    assert(piece_gives(pieces, pieces.len() - 1, e));
                    assert(entries_view(old_entries).contains(e));
                    let k = choose|k: int| 0 <= k < entries_view(old_entries).len() && entries_view(old_entries)[k] == e;
                    assert(entries_view(entries@)[k] == e);
                } else {
                    assert(entries_view(entries@)[entries.len() - 1] == e);
                }
            }
        }
    }
    entries
}

/// How a MIME type was matched against the catalog.
#[derive(Debug, Clone, Copy, PartialEq, Eq, Structural)]
pub enum MimeConfidence {
    ExactIana,
    ExactCustom,
    FuzzyIana,
    FuzzyCustom,
}

/// A catalog MIME type a value was resolved to, and how.
#[derive(Debug, Clone, PartialEq, Eq)]
pub struct MimeResolution {
    pub canonical: String,
    pub confidence: MimeConfidence,
}

/// The known media types: the IANA registry and a project list.
pub struct CatalogView {
    pub iana: Set<Seq<char>>,
    pub custom: Set<Seq<char>>,
}

/// A catalog of known MIME types.
pub struct MimeCatalog {
    iana: Vec<Vec<char>>,
    custom: Vec<Vec<char>>,
    combined: Vec<Vec<char>>,
}

impl View for MimeCatalog {
    type V = CatalogView;

    closed spec fn view(&self) -> CatalogView {
        CatalogView {
            iana: entries_view(self.iana@).to_set(),
            custom: entries_view(self.custom@).to_set(),
        }
    }
}

/// Whether `v` is ascending without repeats.
pub open spec fn strictly_ascending(v: Seq<Seq<char>>) -> bool {
    forall|i: int, j: int| 0 <= i < j < v.len() ==> lex_lt(#[trigger] v[i], #[trigger] v[j])
}

fn contains_entry(list: &Vec<Vec<char>>, e: &Vec<char>) -> (r: bool)
    ensures
        r == entries_view(list@).contains(e@),
{
    for k in 0..list.len()
        invariant
            forall|j: int| 0 <= j < k ==> (#[trigger] list@[j])@ != e@,
    {
        if chars_equal(list[k].as_slice(), e.as_slice()) {
            assert(entries_view(list@)[k as int] == e@);
            return true;
        }
    }
    proof {
        if entries_view(list@).contains(e@) {
            let j = choose|j: int| 0 <= j < entries_view(list@).len() && entries_view(list@)[j] == e@;
            assert(list@[j]@ == e@);
        }
    }
    false
}

fn copy_entry(e: &Vec<char>) -> (r: Vec<char>)
    ensures
        r@ == e@,
{
    let mut r: Vec<char> = Vec::new();
    for i in 0..e.len()
        invariant
            r@ == e@.take(i as int),
    {
        r.push(e[i]);
        assert(e@.take(i + 1) =~= e@.take(i as int).push(e@[i as int]));
    }
    assert(e@.take(e.len() as int) =~= e@);
    r
}

/// Inserts `e` into an ascending list without repeats, keeping it so.
fn insert_sorted(list: &mut Vec<Vec<char>>, e: &Vec<char>)
    requires
        strictly_ascending(entries_view(old(list)@)),
    ensures
        strictly_ascending(entries_view(final(list)@)),
        forall|x: Seq<char>| #[trigger] entries_view(final(list)@).contains(x) <==> (entries_view(
            old(list)@,
        ).contains(x) || x == e@),
{
    let ghost before = entries_view(list@);
    let mut k: usize = 0;
    while k < list.len() && chars_less(list[k].as_slice(), e.as_slice())
        invariant
            k <= list.len(),
            before == entries_view(list@),
            forall|j: int| 0 <= j < k ==> lex_lt(#[trigger] before[j], e@),
        decreases list.len() - k,
    {
        k = k + 1;
    }
    if k < list.len() && chars_equal(list[k].as_slice(), e.as_slice()) {
        proof {
            assert(before[k as int] == e@);
        }
        return;
    }
    let item = copy_entry(e);
    list.insert(k, item);
    proof {
        let after = entries_view(list@);
        assert(after =~= before.take(k as int).push(e@) + before.skip(k as int));
        if k < before.len() {
            lemma_lex_order(before[k as int], e@, e@);
        }
        assert forall|j: int| k <= j < before.len() implies lex_lt(e@, #[trigger] before[j]) by {
            lemma_lex_order(e@, before[k as int], before[j]);
            lemma_lex_order(before[k as int], e@, e@);
        }
        assert forall|i: int, j: int| 0 <= i < j < after.len() implies lex_lt(#[trigger] after[i], #[trigger] after[j]) by {
            if i < k && j == k {
            } else if i < k && j > k {
                assert(after[j] == before[j - 1]);
                lemma_lex_order(after[i], e@, after[j]);
            } else if i == k {
                assert(after[j] == before[j - 1]);
            } else if i > k {
                assert(after[i] == before[i - 1] && after[j] == before[j - 1]);
            }
        }
        assert forall|x: Seq<char>| #[trigger] after.contains(x) <==> (before.contains(x) || x == e@) by {
            if after.contains(x) {
                let j = choose|j: int| 0 <= j < after.len() && after[j] == x;
                if j < k {
                    assert(before[j] == x);
                } else if j > k {
                    assert(before[j - 1] == x);
                }
            }
            if before.contains(x) {
                let j = choose|j: int| 0 <= j < before.len() && before[j] == x;
                if j < k {
                    assert(after[j] == x);
                } else {
                    assert(after[j + 1] == x);
                }
            }
            if x == e@ {
                assert(after[k as int] == x);
            }
        }
    }
}

proof fn lemma_push_contains(s: Seq<Seq<char>>, v: Seq<char>)
    ensures
        forall|x: Seq<char>| #[trigger] s.push(v).contains(x) <==> (s.contains(x) || x == v),
{
    assert forall|x: Seq<char>| #[trigger] s.push(v).contains(x) <==> (s.contains(x) || x == v) by {
        let t = s.push(v);
        if t.contains(x) {
            let j = choose|j: int| 0 <= j < t.len() && t[j] == x;
            if j < s.len() {
                assert(s[j] == x);
            }
        }
        if s.contains(x) {
            let j = choose|j: int| 0 <= j < s.len() && s[j] == x;
            assert(t[j] == x);
        }
        if x == v {
            assert(t[s.len() as int] == x);
        }
    }
}

impl MimeCatalog {
    #[verifier::type_invariant]
    spec fn well_formed(self) -> bool {
        &&& strictly_ascending(entries_view(self.combined@))
        &&& forall|x: Seq<char>| #[trigger] entries_view(self.combined@).contains(x) <==> (entries_view(
            self.iana@,
        ).contains(x) || entries_view(self.custom@).contains(x))
    }

    /// The catalog whose IANA and project types are the entries of the two texts (one type
    /// per line; blank lines ignored; trimmed and lower-cased).
    pub fn from_lists(iana_text: &str, custom_text: &str) -> (r: MimeCatalog)
        ensures
            r@.iana == spec_entries(iana_text@),
            r@.custom == spec_entries(custom_text@),
    {
        let iana = load_word_list(iana_text);
        let custom = load_word_list(custom_text);
        let mut combined: Vec<Vec<char>> = Vec::new();
        for i in 0..iana.len()
            invariant
                strictly_ascending(entries_view(combined@)),
                forall|x: Seq<char>| #[trigger] entries_view(combined@).contains(x) <==> entries_view(
                    iana@.take(i as int),
                ).contains(x),
        {
            insert_sorted(&mut combined, &iana[i]);
            proof {
                lemma_push_contains(entries_view(iana@.take(i as int)), iana@[i as int]@);
                assert(entries_view(iana@.take(i + 1)) =~= entries_view(iana@.take(i as int)).push(iana@[i as int]@));
            }
        }
        assert(iana@.take(iana.len() as int) =~= iana@);
        for i in 0..custom.len()
            invariant
                strictly_ascending(entries_view(combined@)),
                forall|x: Seq<char>| #[trigger] entries_view(combined@).contains(x) <==> (entries_view(
                    iana@,
                ).contains(x) || entries_view(custom@.take(i as int)).contains(x)),
        {
            insert_sorted(&mut combined, &custom[i]);
            proof {
                lemma_push_contains(entries_view(custom@.take(i as int)), custom@[i as int]@);
                assert(entries_view(custom@.take(i + 1)) =~= entries_view(custom@.take(i as int)).push(custom@[i as int]@));
            }
        }
        assert(custom@.take(custom.len() as int) =~= custom@);
        let r = MimeCatalog { iana, custom, combined };
        proof {
            assert(r@.iana =~= spec_entries(iana_text@));
            assert(r@.custom =~= spec_entries(custom_text@));
        }
        r
    }
}

/// Parts longer than this many bytes are treated as dissimilar to everything.
pub const PART_LENGTH_LIMIT: usize = 16777216;

/// The index of the first `/` of `s` at or after `i`.
pub open spec fn first_slash_from(s: Seq<char>, i: int) -> Option<int>
    decreases s.len() - i,
{
    if i < 0 || i >= s.len() {
        None
    } else if s[i] == '/' {
        Some(i)
    } else {
        first_slash_from(s, i + 1)
    }
}

/// The similarity of two parts of MIME types as a fraction (numerator, denominator): none
/// when either is empty, full when they are equal ignoring ASCII case, else one minus the
/// byte edit distance over the longer byte length (none for parts over the length limit).
pub open spec fn part_similarity(l: Seq<char>, r: Seq<char>) -> (int, int) {
    let lb = encode_utf8(l);
    let rb = encode_utf8(r);
    if lb.len() == 0 || rb.len() == 0 {
        (0, 1)
    } else if spec_lower(l) == spec_lower(r) {
        (1, 1)
    } else if lb.len() > PART_LENGTH_LIMIT || rb.len() > PART_LENGTH_LIMIT {
        (0, 1)
    } else {
        let longest = if lb.len() >= rb.len() {
            lb.len()
        } else {
            rb.len()
        };
        (longest - edit_distance(lb, rb), longest as int)
    }
}

/// The similarity of a MIME type to a candidate as a fraction: three tenths of the
/// similarity of the types plus seven tenths of that of the subtypes, none when either
/// has no `/`.
pub open spec fn mime_similarity(v: Seq<char>, c: Seq<char>) -> (int, int) {
    match (first_slash_from(v, 0), first_slash_from(c, 0)) {
        (Some(i), Some(j)) => {
            let t = part_similarity(v.take(i), c.take(j));
            let s = part_similarity(v.skip(i + 1), c.skip(j + 1));
            (3 * t.0 * s.1 + 7 * s.0 * t.1, 10 * t.1 * s.1)
        },
        _ => (0, 1),
    }
}

/// Whether a similarity exceeds seven tenths.
pub open spec fn above_threshold(s: (int, int)) -> bool {
    10 * s.0 > 7 * s.1
}

/// Whether similarity `x` is below similarity `y`.
pub open spec fn sim_less(x: (int, int), y: (int, int)) -> bool {
    x.0 * y.1 < y.0 * x.1
}

fn first_slash(s: &[char]) -> (r: Option<usize>)
    ensures
        match r {
            Some(i) => first_slash_from(s@, 0) == Some(i as int) && i < s@.len(),
            None => first_slash_from(s@, 0) is None,
        },
{
    for i in 0..s.len()
        invariant
            first_slash_from(s@, 0) == first_slash_from(s@, i as int),
    {
        if s[i] == '/' {
            return Some(i);
        }
    }
    None
}

proof fn lemma_edit_distance_le(a: Seq<u8>, b: Seq<u8>)
    ensures
        edit_distance(a, b) <= (if a.len() >= b.len() { a.len() } else { b.len() }),
{
    lemma_edit_distance_bound(a, b);
}

fn part_similarity_exec(l: &[char], r: &[char]) -> (s: (u128, u128))
    ensures
        s.0 as int == part_similarity(l@, r@).0,
        s.1 as int == part_similarity(l@, r@).1,
        s.1 >= 1,
        s.1 <= PART_LENGTH_LIMIT,
        s.0 <= s.1,
{
    let ls = string_from_chars(l);
    let rs = string_from_chars(r);
    let lb = ls.as_str().as_bytes();
    let rb = rs.as_str().as_bytes();
    if lb.len() == 0 || rb.len() == 0 {
        return (0, 1);
    }
    let ll = lower_chars(l);
    let rl = lower_chars(r);
    if chars_equal(ll.as_slice(), rl.as_slice()) {
        return (1, 1);
    }
    if lb.len() > PART_LENGTH_LIMIT || rb.len() > PART_LENGTH_LIMIT {
        return (0, 1);
    }
    let longest = if lb.len() >= rb.len() {
        lb.len()
    } else {
        rb.len()
    };
    let d = levenshtein_distance(ls.as_str(), rs.as_str());
    proof {
        lemma_edit_distance_le(lb@, rb@);
    }
    ((longest - d) as u128, longest as u128)
}

/// The similarity of a MIME type to a candidate as a fraction.
fn mime_similarity_exec(v: &[char], c: &[char]) -> (s: (u128, u128))
    ensures
        s.0 as int == mime_similarity(v@, c@).0,
        s.1 as int == mime_similarity(v@, c@).1,
        1 <= s.1 <= 10 * PART_LENGTH_LIMIT * PART_LENGTH_LIMIT,
        s.0 <= s.1,
{
    let vn = v.len();
    let cn = c.len();
    let i = match first_slash(v) {
        Some(i) => i,
        None => return (0, 1),
    };
    let j = match first_slash(c) {
        Some(j) => j,
        None => return (0, 1),
    };
    let vt = crate::text::copy_chars(v, 0, i);
    let ct = crate::text::copy_chars(c, 0, j);
    let vs = crate::text::copy_chars(v, i + 1, vn);
    let cs = crate::text::copy_chars(c, j + 1, cn);
    assert(vt@ =~= v@.take(i as int));
    assert(ct@ =~= c@.take(j as int));
    assert(vs@ =~= v@.skip(i + 1));
    assert(cs@ =~= c@.skip(j + 1));
    let t = part_similarity_exec(vt.as_slice(), ct.as_slice());
    let s = part_similarity_exec(vs.as_slice(), cs.as_slice());
    proof {
        assert(t.0 * s.1 <= t.1 * s.1) by (nonlinear_arith)
            requires t.0 <= t.1;
        assert(s.0 * t.1 <= s.1 * t.1) by (nonlinear_arith)
            requires s.0 <= s.1;
        assert(t.1 * s.1 <= PART_LENGTH_LIMIT * PART_LENGTH_LIMIT) by (nonlinear_arith)
            requires t.1 <= PART_LENGTH_LIMIT, s.1 <= PART_LENGTH_LIMIT;
        assert(t.1 * s.1 >= 1) by (nonlinear_arith)
            requires t.1 >= 1, s.1 >= 1;
        assert(3 * t.0 * s.1 <= 3 * 16777216 * 16777216) by (nonlinear_arith)
            requires t.0 <= 16777216, s.1 <= 16777216;
        assert(7 * s.0 * t.1 <= 7 * 16777216 * 16777216) by (nonlinear_arith)
            requires s.0 <= 16777216, t.1 <= 16777216;
        assert(10 * t.1 * s.1 <= 10 * 16777216 * 16777216) by (nonlinear_arith)
            requires s.1 <= 16777216, t.1 <= 16777216;
        assert(10 * t.1 * s.1 >= 1) by (nonlinear_arith)
            requires s.1 >= 1, t.1 >= 1;
        assert(3 * t.0 * s.1 + 7 * s.0 * t.1 <= 10 * t.1 * s.1) by (nonlinear_arith)
            requires t.0 <= t.1, s.0 <= s.1, t.0 >= 0, s.0 >= 0, t.1 >= 0, s.1 >= 0;
    }
    (3 * t.0 * s.1 + 7 * s.0 * t.1, 10 * t.1 * s.1)
}

/// Whether `c` is the best fuzzy match for `v` among the catalog types: it is one of them,
/// its similarity exceeds seven tenths, and every other type above the threshold is less
/// similar, or as similar and after it in lexicographic order.
pub open spec fn is_fuzzy_best(cat: CatalogView, v: Seq<char>, c: Seq<char>) -> bool {
    &&& (cat.iana.contains(c) || cat.custom.contains(c))
    &&& above_threshold(mime_similarity(v, c))
    &&& forall|c2: Seq<char>|
        (cat.iana.contains(c2) || cat.custom.contains(c2)) && above_threshold(
            #[trigger] mime_similarity(v, c2),
        ) ==> sim_less(mime_similarity(v, c2), mime_similarity(v, c)) || (!sim_less(
            mime_similarity(v, c),
            mime_similarity(v, c2),
        ) && (c2 == c || lex_lt(c, c2)))
}

/// Whether some catalog type is similar enough to `v`.
pub open spec fn has_fuzzy_match(cat: CatalogView, v: Seq<char>) -> bool {
    exists|c: Seq<char>|
        (cat.iana.contains(c) || cat.custom.contains(c)) && above_threshold(#[trigger] mime_similarity(v, c))
}

/// Whether `r` is the canonical form of `mime` in `cat`: the repaired type when the
/// catalog lists it (IANA first), else the best fuzzy match, else none.
pub open spec fn is_canonical(cat: CatalogView, mime: Seq<char>, r: Option<(Seq<char>, MimeConfidence)>) -> bool {
    let cleaned = spec_clean_mime(mime);
    if cleaned.len() == 0 {
        r is None
    } else if cat.iana.contains(cleaned) {
        r == Some((cleaned, MimeConfidence::ExactIana))
    } else if cat.custom.contains(cleaned) {
        r == Some((cleaned, MimeConfidence::ExactCustom))
    } else if !has_fuzzy_match(cat, cleaned) {
        r is None
    } else {
        r matches Some((c, conf)) && is_fuzzy_best(cat, cleaned, c) && conf == (if cat.iana.contains(c) {
            MimeConfidence::FuzzyIana
        } else {
            MimeConfidence::FuzzyCustom
        })
    }
}

/// A resolution as values.
pub open spec fn resolution_view(r: Option<MimeResolution>) -> Option<(Seq<char>, MimeConfidence)> {
    match r {
        Some(m) => Some((m.canonical@, m.confidence)),
        None => None,
    }
}

impl MimeCatalog {
    /// Resolves a MIME type against the catalog without a cache.
    pub fn canonicalize_uncached(&self, mime_type: &str) -> (r: Option<MimeResolution>)
        ensures
            is_canonical(self@, mime_type@, resolution_view(r)),
    {
        proof {
            use_type_invariant(self);
        }
        let cleaned_text = clean_basic_mime_type(mime_type);
        let cleaned = chars_of(cleaned_text.as_str());
        if cleaned.len() == 0 {
            return None;
        }
        if contains_entry(&self.iana, &cleaned) {
            return Some(MimeResolution { canonical: cleaned_text, confidence: MimeConfidence::ExactIana });
        }
        if contains_entry(&self.custom, &cleaned) {
            return Some(MimeResolution { canonical: cleaned_text, confidence: MimeConfidence::ExactCustom });
        }
        let ghost cv = cleaned@;
        let ghost comb = entries_view(self.combined@);
        let mut best: Option<usize> = None;
        let mut best_sim: (u128, u128) = (0, 1);
        for k in 0..self.combined.len()
            invariant
                cv == cleaned@,
                comb == entries_view(self.combined@),
                strictly_ascending(comb),
                match best {
                    Some(b) => b < k && above_threshold(mime_similarity(cv, comb[b as int]))
                        && best_sim.0 as int == mime_similarity(cv, comb[b as int]).0
                        && best_sim.1 as int == mime_similarity(cv, comb[b as int]).1
                        && forall|j: int| 0 <= j < k && above_threshold(#[trigger] mime_similarity(cv, comb[j]))
                            ==> sim_less(mime_similarity(cv, comb[j]), mime_similarity(cv, comb[b as int]))
                            || (!sim_less(mime_similarity(cv, comb[b as int]), mime_similarity(cv, comb[j]))
                            && (j == b || j > b)),
                    None => forall|j: int| 0 <= j < k ==> !above_threshold(#[trigger] mime_similarity(cv, comb[j])),
                },
                1 <= best_sim.1 <= 10 * PART_LENGTH_LIMIT * PART_LENGTH_LIMIT,
                best_sim.0 <= best_sim.1,
        {
            let sim = mime_similarity_exec(cleaned.as_slice(), self.combined[k].as_slice());
            assert(comb[k as int] == self.combined@[k as int]@);
            proof {
                assert(10 * PART_LENGTH_LIMIT * PART_LENGTH_LIMIT == 2814749767106560);
                assert(2814749767106560 * 2814749767106560 < u128::MAX);
                assert(sim.0 * best_sim.1 <= (10 * PART_LENGTH_LIMIT * PART_LENGTH_LIMIT) * (10
                    * PART_LENGTH_LIMIT * PART_LENGTH_LIMIT)) by (nonlinear_arith)
                    requires sim.0 <= 10 * PART_LENGTH_LIMIT * PART_LENGTH_LIMIT, best_sim.1 <= 10
                        * PART_LENGTH_LIMIT * PART_LENGTH_LIMIT;
                assert(best_sim.0 * sim.1 <= (10 * PART_LENGTH_LIMIT * PART_LENGTH_LIMIT) * (10
                    * PART_LENGTH_LIMIT * PART_LENGTH_LIMIT)) by (nonlinear_arith)
                    requires best_sim.0 <= 10 * PART_LENGTH_LIMIT * PART_LENGTH_LIMIT, sim.1 <= 10
                        * PART_LENGTH_LIMIT * PART_LENGTH_LIMIT;
            }
            if 10 * sim.0 > 7 * sim.1 {
                let better = match best {
                    None => true,
                    Some(_) => sim.0 * best_sim.1 > best_sim.0 * sim.1,
                };
                if better {
                    proof {
                        if let Some(b) = best {
                            assert forall|j: int| 0 <= j < k + 1 && above_threshold(#[trigger] mime_similarity(cv, comb[j]))
                                implies sim_less(mime_similarity(cv, comb[j]), mime_similarity(cv, comb[k as int]))
                                || (!sim_less(mime_similarity(cv, comb[k as int]), mime_similarity(cv, comb[j]))
                                && (j == k || j > k)) by {
                                lemma_similarity_denominator(cv, comb[j]);
                                lemma_similarity_denominator(cv, comb[b as int]);
                                lemma_similarity_denominator(cv, comb[k as int]);
                                lemma_sim_order(mime_similarity(cv, comb[j]), mime_similarity(cv, comb[b as int]), mime_similarity(cv, comb[k as int]));
                            }
                        }
                    }
                    best = Some(k);
                    best_sim = sim;
                } else {
                    proof {
                        if let Some(b) = best {
                            lemma_similarity_denominator(cv, comb[b as int]);
                            lemma_similarity_denominator(cv, comb[k as int]);
                            lemma_sim_order(mime_similarity(cv, comb[k as int]), mime_similarity(cv, comb[b as int]), mime_similarity(cv, comb[k as int]));
                        }
                    }
                }
            }
        }
        match best {
            None => {
                proof {
                    if has_fuzzy_match(self@, cv) {
                        let c = choose|c: Seq<char>|
                            (self@.iana.contains(c) || self@.custom.contains(c)) && above_threshold(#[trigger] mime_similarity(cv, c));
                        lemma_union_member(self.iana@, self.custom@, self.combined@, c);
                        assert(comb.contains(c));
                        let j = choose|j: int| 0 <= j < comb.len() && comb[j] == c;
                        assert(!above_threshold(mime_similarity(cv, comb[j])));
                    }
                }
                None
            },
            Some(b) => {
                let canonical = string_from_chars(self.combined[b].as_slice());
                let in_iana = contains_entry(&self.iana, &self.combined[b]);
                proof {
                    let c = comb[b as int];
                    assert(comb.contains(c));
                    assert(self@.iana.contains(c) || self@.custom.contains(c));
                    assert forall|c2: Seq<char>|
                        (self@.iana.contains(c2) || self@.custom.contains(c2)) && above_threshold(
                            #[trigger] mime_similarity(cv, c2),
                        ) implies sim_less(mime_similarity(cv, c2), mime_similarity(cv, c)) || (!sim_less(
                            mime_similarity(cv, c),
                            mime_similarity(cv, c2),
                        ) && (c2 == c || lex_lt(c, c2))) by {
                        lemma_union_member(self.iana@, self.custom@, self.combined@, c2);
                        let j = choose|j: int| 0 <= j < comb.len() && comb[j] == c2;
                        assert(above_threshold(mime_similarity(cv, comb[j])));
                        if j > b {
                            assert(lex_lt(comb[b as int], comb[j]));
                        }
                    }
                    assert(is_fuzzy_best(self@, cv, c));
                }
                Some(MimeResolution {
                    canonical,
                    confidence: if in_iana {
                        MimeConfidence::FuzzyIana
                    } else {
                        MimeConfidence::FuzzyCustom
                    },
                })
            },
        }
    }
}

proof fn lemma_union_member(iana: Seq<Vec<char>>, custom: Seq<Vec<char>>, combined: Seq<Vec<char>>, c: Seq<char>)
    requires
        forall|x: Seq<char>| #[trigger] entries_view(combined).contains(x) <==> (entries_view(iana).contains(x)
            || entries_view(custom).contains(x)),
        entries_view(iana).to_set().contains(c) || entries_view(custom).to_set().contains(c),
    ensures
        entries_view(combined).contains(c),
{
    assert(entries_view(combined).contains(c) <==> (entries_view(iana).contains(c) || entries_view(custom).contains(c)));
}

proof fn lemma_similarity_denominator(v: Seq<char>, c: Seq<char>)
    ensures
        mime_similarity(v, c).1 >= 1,
{
    match (first_slash_from(v, 0), first_slash_from(c, 0)) {
        (Some(i), Some(j)) => {
            let t = part_similarity(v.take(i), c.take(j));
            let s = part_similarity(v.skip(i + 1), c.skip(j + 1));
            assert(t.1 >= 1 && s.1 >= 1);
            assert(10 * t.1 * s.1 >= 1) by (nonlinear_arith)
                requires t.1 >= 1, s.1 >= 1;
        },
        _ => {},
    }
}

proof fn lemma_sim_order(x: (int, int), y: (int, int), z: (int, int))
    requires
        x.1 > 0,
        y.1 > 0,
        z.1 > 0,
    ensures
        sim_less(x, y) && sim_less(y, z) ==> sim_less(x, z),
        sim_less(x, y) && !sim_less(z, y) ==> sim_less(x, z),
        !sim_less(y, x) && sim_less(y, z) ==> sim_less(x, z),
        !sim_less(x, y) && !sim_less(y, x) && !sim_less(y, z) ==> !sim_less(x, z),
        sim_less(x, y) ==> !sim_less(y, x),
{
    assert(sim_less(x, y) && sim_less(y, z) ==> sim_less(x, z)) by (nonlinear_arith)
        requires x.1 > 0, y.1 > 0, z.1 > 0;
    assert(sim_less(x, y) && !sim_less(z, y) ==> sim_less(x, z)) by (nonlinear_arith)
        requires x.1 > 0, y.1 > 0, z.1 > 0;
    assert(!sim_less(y, x) && sim_less(y, z) ==> sim_less(x, z)) by (nonlinear_arith)
        requires x.1 > 0, y.1 > 0, z.1 > 0;
    assert(!sim_less(x, y) && !sim_less(y, x) && !sim_less(y, z) ==> !sim_less(x, z)) by (nonlinear_arith)
        requires x.1 > 0, y.1 > 0, z.1 > 0;
}

/// Resolutions already computed for one catalog, by the raw MIME type asked for.
pub struct MimeCache {
    entries: Vec<(String, Option<MimeResolution>)>,
    catalog: Ghost<CatalogView>,
}

impl MimeCache {
    /// The catalog the cached resolutions were computed against.
    pub closed spec fn catalog_view(&self) -> CatalogView {
        self.catalog@
    }

    /// Whether the cache remembers a resolution for `mime`.
    pub closed spec fn holds(&self, mime: Seq<char>) -> bool {
        exists|k: int| 0 <= k < self.entries@.len() && (#[trigger] self.entries@[k]).0@ == mime
    }

    /// Every cached resolution is the canonical form of its MIME type in that catalog.
    pub closed spec fn wf(&self) -> bool {
        forall|k: int|
            0 <= k < self.entries@.len() ==> is_canonical(
                self.catalog@,
                (#[trigger] self.entries@[k]).0@,
                resolution_view(self.entries@[k].1),
            )
    }
}

fn copy_resolution(r: &Option<MimeResolution>) -> (c: Option<MimeResolution>)
    ensures
        resolution_view(c) == resolution_view(*r),
{
    match r {
        Some(m) => Some(MimeResolution { canonical: m.canonical.clone(), confidence: m.confidence }),
        None => None,
    }
}

impl MimeCatalog {
    /// An empty cache for this catalog.
    pub fn new_cache(&self) -> (c: MimeCache)
        ensures
            c.wf(),
            c.catalog_view() == self@,
    {
        MimeCache { entries: Vec::new(), catalog: Ghost(self@) }
    }

    /// Resolves a MIME type against the catalog: the repaired type when the catalog lists
    /// it (IANA first), else the most similar catalog type above seven tenths similarity
    /// (the smallest on a tie), else none. Results are remembered in `cache`.
    pub fn canonicalize(&self, mime_type: &str, cache: &mut MimeCache) -> (r: Option<MimeResolution>)
        requires
            old(cache).wf(),
            old(cache).catalog_view() == self@,
        ensures
            is_canonical(self@, mime_type@, resolution_view(r)),
            final(cache).wf(),
            final(cache).catalog_view() == self@,
            final(cache).holds(mime_type@),
            forall|m: Seq<char>| old(cache).holds(m) ==> final(cache).holds(m),
    {
        let key = chars_of(mime_type);
        for k in 0..cache.entries.len()
            invariant
                cache.wf(),
                cache.catalog_view() == self@,
                key@ == mime_type@,
        {
            let entry_key = chars_of(cache.entries[k].0.as_str());
            if chars_equal(entry_key.as_slice(), key.as_slice()) {
                assert(is_canonical(cache.catalog@, cache.entries@[k as int].0@, resolution_view(cache.entries@[k as int].1)));
                assert(cache.holds(mime_type@));
                return copy_resolution(&cache.entries[k].1);
            }
        }
        let r = self.canonicalize_uncached(mime_type);
        let stored = copy_resolution(&r);
        let ghost before = cache.entries@;
        cache.entries.push((mime_type.to_owned(), stored));
        proof {
            assert forall|k: int|
                0 <= k < cache.entries@.len() implies is_canonical(
                    cache.catalog@,
                    (#[trigger] cache.entries@[k]).0@,
                    resolution_view(cache.entries@[k].1),
                ) by {
                if k < before.len() {
                    assert(cache.entries@[k] == before[k]);
                }
            }
            assert(cache.entries@[before.len() as int].0@ == mime_type@);
            assert(cache.holds(mime_type@));
            assert forall|m: Seq<char>| old(cache).holds(m) implies cache.holds(m) by {
                let k = choose|k: int| 0 <= k < before.len() && (#[trigger] before[k]).0@ == m;
                assert(cache.entries@[k] == before[k]);
            }
        }
        r
    }
}


/// A catalog resolves a MIME type to one result: any two results that meet the
/// canonical-form contract agree, so a remembered result is the one a fresh resolution
/// gives.
pub proof fn lemma_canonical_unique(
    cat: CatalogView,
    mime: Seq<char>,
    r1: Option<(Seq<char>, MimeConfidence)>,
    r2: Option<(Seq<char>, MimeConfidence)>,
)
    requires
        is_canonical(cat, mime, r1),
        is_canonical(cat, mime, r2),
    ensures
        r1 == r2,
{
    let cleaned = spec_clean_mime(mime);
    if cleaned.len() > 0 && !cat.iana.contains(cleaned) && !cat.custom.contains(cleaned) && has_fuzzy_match(
        cat,
        cleaned,
    ) {
        let c1 = (r1->0).0;
        let c2 = (r2->0).0;
        let s1 = mime_similarity(cleaned, c1);
        let s2 = mime_similarity(cleaned, c2);
        assert(is_fuzzy_best(cat, cleaned, c1));
        assert(is_fuzzy_best(cat, cleaned, c2));
        assert(sim_less(s2, s1) || (!sim_less(s1, s2) && (c2 == c1 || lex_lt(c1, c2))));
        assert(sim_less(s1, s2) || (!sim_less(s2, s1) && (c1 == c2 || lex_lt(c2, c1))));
        assert(!(sim_less(s2, s1) && sim_less(s1, s2))) by (nonlinear_arith);
        lemma_lex_order(c1, c2, c1);
    }
}
} // verus!
