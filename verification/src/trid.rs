//! TrID definitions turned into package records: priorities from the evidence a
//! definition carries, and the package's record order.
use vstd::prelude::*;

use crate::definitions::{
    patterns_view, records_view, DefinitionRecord, RecordView, SignatureDefinition,
    SignaturePattern,
};
use crate::legacy::DefinitionPackage;
use crate::storage::{has_extension, path_has_extension};
use crate::text::{chars_equal, chars_less, chars_of, lemma_lex_order, lex_lt};

verus! {

/// The tags value of packages built from TrID definitions.
pub const LEGACY_VALIDATED_TAGS: u32 = 48;

/// A byte pattern of a TrID definition.
#[derive(Debug, Clone)]
pub struct TridPattern {
    pub position: u16,
    pub data: Vec<u8>,
}

/// The patterns and strings of a TrID definition.
#[derive(Debug, Clone)]
pub struct TridSignature {
    pub patterns: Vec<TridPattern>,
    pub strings: Vec<Vec<u8>>,
}

/// A TrID definition as read from its XML file.
#[derive(Debug, Clone)]
pub struct ParsedTridDefinition {
    pub file_type: String,
    pub extensions: Vec<String>,
    pub mime_type: String,
    pub remarks: String,
    pub signature: TridSignature,
    pub file_count: u32,
}

/// The priority of a definition: its file count (capped at `i32::MAX`), ten per pattern,
/// four per string, and 25 more when it has patterns at all.
pub open spec fn spec_priority(file_count: u32, pattern_count: int, string_count: int) -> int {
    (if file_count > i32::MAX { i32::MAX as int } else { file_count as int }) + pattern_count * 10
        + string_count * 4 + if pattern_count > 0 {
        25int
    } else {
        0int
    }
}

/// The priority of a definition.
pub fn calculate_priority(file_count: u32, pattern_count: usize, string_count: usize) -> (r: i32)
    requires
        spec_priority(file_count, pattern_count as int, string_count as int) <= i32::MAX,
    ensures
        r == spec_priority(file_count, pattern_count as int, string_count as int),
{
    let capped: i64 = if file_count > i32::MAX as u32 {
        i32::MAX as i64
    } else {
        file_count as i64
    };
    let pattern_score = (pattern_count as i64) * 10;
    let string_score = (string_count as i64) * 4;
    let bonus: i64 = if pattern_count > 0 {
        25
    } else {
        0
    };
    (capped + pattern_score + string_score + bonus) as i32
}

/// The record a TrID definition becomes.
pub open spec fn spec_record_of(d: ParsedTridDefinition) -> RecordView {
    RecordView {
        file_type: d.file_type@,
        extensions: d.extensions@.map_values(|e: String| e@),
        mime_type: d.mime_type@,
        remarks: d.remarks@,
        signature: crate::definitions::SignatureView {
            patterns: d.signature.patterns@.map_values(
                |p: TridPattern| crate::definitions::PatternView { position: p.position, data: p.data@ },
            ),
            strings: d.signature.strings@.map_values(|s: Vec<u8>| s@),
        },
        priority_level: spec_priority(
            d.file_count,
            d.signature.patterns@.len() as int,
            d.signature.strings@.len() as int,
        ) as i32,
    }
}

/// Whether the priority of a definition fits in an `i32`.
pub open spec fn priority_fits(d: ParsedTridDefinition) -> bool {
    spec_priority(d.file_count, d.signature.patterns@.len() as int, d.signature.strings@.len() as int)
        <= i32::MAX
}

impl ParsedTridDefinition {
    /// The record this definition becomes, with its priority.
    pub fn into_definition_record(self) -> (r: DefinitionRecord)
        requires
            priority_fits(self),
        ensures
            r@ == spec_record_of(self),
    {
        let ghost d = self;
        let priority_level = calculate_priority(
            self.file_count,
            self.signature.patterns.len(),
            self.signature.strings.len(),
        );
        let mut patterns: Vec<SignaturePattern> = Vec::new();
        let source = self.signature.patterns;
        for j in 0..source.len()
            invariant
                source@ == d.signature.patterns@,
                patterns.len() == j,
                forall|k: int| 0 <= k < j ==> (#[trigger] patterns@[k])@ == (crate::definitions::PatternView {
                    position: source@[k].position,
                    data: source@[k].data@,
                }),
        {
            patterns.push(SignaturePattern { position: source[j].position, data: source[j].data.clone() });
        }
        let r = DefinitionRecord {
            file_type: self.file_type,
            extensions: self.extensions,
            mime_type: self.mime_type,
            remarks: self.remarks,
            signature: SignatureDefinition { patterns, strings: self.signature.strings },
            priority_level,
        };
        proof {
            assert(patterns_view(r.signature.patterns@) =~= d.signature.patterns@.map_values(
                |p: TridPattern| crate::definitions::PatternView { position: p.position, data: p.data@ },
            ));
        }
        r
    }
}

/// Whether list `a` comes before list `b` in lexicographic order of their strings.
pub open spec fn lex_list_lt(a: Seq<Seq<char>>, b: Seq<Seq<char>>) -> bool
    decreases a.len(),
{
    if a.len() == 0 {
        b.len() > 0
    } else if b.len() == 0 {
        false
    } else if a[0] != b[0] {
        lex_lt(a[0], b[0])
    } else {
        lex_list_lt(a.drop_first(), b.drop_first())
    }
}

/// Lexicographic order of string lists is a strict total order.
pub proof fn lemma_lex_list_order(a: Seq<Seq<char>>, b: Seq<Seq<char>>, c: Seq<Seq<char>>)
    ensures
        !lex_list_lt(a, a),
        lex_list_lt(a, b) ==> !lex_list_lt(b, a),
        a != b ==> lex_list_lt(a, b) || lex_list_lt(b, a),
        lex_list_lt(a, b) && lex_list_lt(b, c) ==> lex_list_lt(a, c),
    decreases a.len(),
{
    if a.len() > 0 && b.len() > 0 && c.len() > 0 {
        lemma_lex_list_order(a.drop_first(), b.drop_first(), c.drop_first());
        lemma_lex_order(a[0], b[0], c[0]);
        lemma_lex_order(b[0], a[0], c[0]);
        if a[0] == b[0] && a.drop_first() == b.drop_first() {
            assert(a =~= seq![a[0]] + a.drop_first());
            assert(b =~= seq![b[0]] + b.drop_first());
        }
    } else if a.len() > 0 && b.len() > 0 {
        lemma_lex_list_order(a.drop_first(), b.drop_first(), b.drop_first());
        lemma_lex_order(a[0], b[0], b[0]);
        if a[0] == b[0] && a.drop_first() == b.drop_first() {
            assert(a =~= seq![a[0]] + a.drop_first());
            assert(b =~= seq![b[0]] + b.drop_first());
        }
    } else if a.len() > 0 {
        lemma_lex_list_order(a.drop_first(), a.drop_first(), a.drop_first());
        lemma_lex_order(a[0], a[0], a[0]);
    } else {
        if b.len() == 0 {
            assert(a =~= b);
        }
    }
}

/// Whether list `a` comes before list `b` in lexicographic order of their strings.
pub fn string_list_less(a: &Vec<String>, b: &Vec<String>) -> (r: bool)
    ensures
        r == lex_list_lt(a@.map_values(|s: String| s@), b@.map_values(|s: String| s@)),
{
    let ghost av = a@.map_values(|s: String| s@);
    let ghost bv = b@.map_values(|s: String| s@);
    let mut i: usize = 0;
    assert(av.skip(0) =~= av);
    assert(bv.skip(0) =~= bv);
    while i < a.len() && i < b.len()
        invariant
            i <= a.len(),
            i <= b.len(),
            av == a@.map_values(|s: String| s@),
            bv == b@.map_values(|s: String| s@),
            lex_list_lt(av, bv) == lex_list_lt(av.skip(i as int), bv.skip(i as int)),
        decreases a.len() - i,
    {
        let ghost sa = av.skip(i as int);
        let ghost sb = bv.skip(i as int);
        assert(sa[0] == a@[i as int]@);
        assert(sb[0] == b@[i as int]@);
        let ca = chars_of(a[i].as_str());
        let cb = chars_of(b[i].as_str());
        if !chars_equal(ca.as_slice(), cb.as_slice()) {
            return chars_less(ca.as_slice(), cb.as_slice());
        }
        assert(sa.drop_first() =~= av.skip(i + 1));
        assert(sb.drop_first() =~= bv.skip(i + 1));
        i = i + 1;
    }
    a.len() - i < b.len() - i
}

/// Whether record `a` is placed before record `b`: higher priority, then the smaller file
/// type, MIME type, extension list and remarks.
pub open spec fn record_before(a: RecordView, b: RecordView) -> bool {
    a.priority_level > b.priority_level || (a.priority_level == b.priority_level && (lex_lt(
        a.file_type,
        b.file_type,
    ) || (a.file_type == b.file_type && (lex_lt(a.mime_type, b.mime_type) || (a.mime_type
        == b.mime_type && (lex_list_lt(a.extensions, b.extensions) || (a.extensions == b.extensions
        && lex_lt(a.remarks, b.remarks))))))))
}

/// Whether two records tie on every ordering key.
pub open spec fn same_record_rank(a: RecordView, b: RecordView) -> bool {
    a.priority_level == b.priority_level && a.file_type == b.file_type && a.mime_type == b.mime_type
        && a.extensions == b.extensions && a.remarks == b.remarks
}

/// Record order is a strict weak order whose ties are the records equal on every key.
pub proof fn lemma_record_order(a: RecordView, b: RecordView, c: RecordView)
    ensures
        !record_before(a, a),
        record_before(a, b) ==> !record_before(b, a),
        record_before(a, b) && record_before(b, c) ==> record_before(a, c),
        !record_before(a, b) && !record_before(b, a) <==> same_record_rank(a, b),
{
    lemma_lex_order(a.file_type, b.file_type, c.file_type);
    lemma_lex_order(b.file_type, a.file_type, c.file_type);
    lemma_lex_order(a.mime_type, b.mime_type, c.mime_type);
    lemma_lex_order(b.mime_type, a.mime_type, c.mime_type);
    lemma_lex_list_order(a.extensions, b.extensions, c.extensions);
    lemma_lex_list_order(b.extensions, a.extensions, c.extensions);
    lemma_lex_order(a.remarks, b.remarks, c.remarks);
    lemma_lex_order(b.remarks, a.remarks, c.remarks);
}

fn strings_equal(a: &String, b: &String) -> (r: bool)
    ensures
        r == (a@ == b@),
{
    let ca = chars_of(a.as_str());
    let cb = chars_of(b.as_str());
    chars_equal(ca.as_slice(), cb.as_slice())
}

fn string_lists_equal(a: &Vec<String>, b: &Vec<String>) -> (r: bool)
    ensures
        r == (a@.map_values(|s: String| s@) == b@.map_values(|s: String| s@)),
{
    let r = !string_list_less(a, b) && !string_list_less(b, a);
    proof {
        lemma_lex_list_order(
            a@.map_values(|s: String| s@),
            b@.map_values(|s: String| s@),
            b@.map_values(|s: String| s@),
        );
    }
    r
}

/// Whether record `a` is placed before record `b`.
pub fn record_placed_before(a: &DefinitionRecord, b: &DefinitionRecord) -> (r: bool)
    ensures
        r == record_before(a@, b@),
{
    if a.priority_level != b.priority_level {
        return a.priority_level > b.priority_level;
    }
    proof {
        lemma_record_order(a@, b@, b@);
        lemma_lex_order(a@.file_type, a@.file_type, a@.file_type);
        lemma_lex_order(a@.mime_type, a@.mime_type, a@.mime_type);
        lemma_lex_list_order(a@.extensions, a@.extensions, a@.extensions);
    }
    if !strings_equal(&a.file_type, &b.file_type) {
        let ca = chars_of(a.file_type.as_str());
        let cb = chars_of(b.file_type.as_str());
        return chars_less(ca.as_slice(), cb.as_slice());
    }
    if !strings_equal(&a.mime_type, &b.mime_type) {
        let ca = chars_of(a.mime_type.as_str());
        let cb = chars_of(b.mime_type.as_str());
        return chars_less(ca.as_slice(), cb.as_slice());
    }
    if !string_lists_equal(&a.extensions, &b.extensions) {
        return string_list_less(&a.extensions, &b.extensions);
    }
    let ca = chars_of(a.remarks.as_str());
    let cb = chars_of(b.remarks.as_str());
    chars_less(ca.as_slice(), cb.as_slice())
}

/// `out` is `input` in record order, stably: a permutation `perm` of the input positions
/// places each output record, no record is placed before one placed earlier, and tied
/// records keep their input order.
pub open spec fn is_stable_record_order(input: Seq<RecordView>, out: Seq<RecordView>, perm: Seq<int>) -> bool {
    &&& out.len() == input.len()
    &&& perm.len() == input.len()
    &&& forall|k: int| 0 <= k < perm.len() ==> 0 <= #[trigger] perm[k] < input.len() && out[k]
        == input[perm[k]]
    &&& forall|a: int, b: int| 0 <= a < b < perm.len() ==> perm[a] != perm[b]
    &&& forall|a: int, b: int|
        0 <= a < b < out.len() ==> !record_before(#[trigger] out[b], #[trigger] out[a])
    &&& forall|a: int, b: int|
        0 <= a < b < out.len() && same_record_rank(#[trigger] out[a], #[trigger] out[b]) ==> perm[a]
            < perm[b]
}

/// Sorts records into package order, keeping tied records in their input order.
pub fn sort_records(input: Vec<DefinitionRecord>) -> (r: Vec<DefinitionRecord>)
    ensures
        exists|perm: Seq<int>| is_stable_record_order(records_view(input@), records_view(r@), perm),
{
    let ghost iv = records_view(input@);
    let mut rest = input;
    let mut out: Vec<DefinitionRecord> = Vec::new();
    let ghost mut perm: Seq<int> = Seq::empty();
    let mut taken: usize = 0;
    let total = rest.len();
    while rest.len() > 0
        invariant
            total == iv.len(),
            taken + rest@.len() == total,
            records_view(rest@) == iv.skip(taken as int),
            is_stable_record_order(iv.take(taken as int), records_view(out@), perm),
        decreases rest@.len(),
    {
        let ghost ov = records_view(out@);
        let ghost old_rest = rest@;
        let item = rest.remove(0);
        proof {
            assert(item@ == iv[taken as int]) by {
                assert(records_view(old_rest)[0] == iv.skip(taken as int)[0]);
            }
            assert(records_view(rest@) =~= iv.skip(taken + 1)) by {
                assert forall|k: int| 0 <= k < rest@.len() implies records_view(rest@)[k]
                    == iv.skip(taken + 1)[k] by {
                    assert(rest@[k] == old_rest[k + 1]);
                    assert(records_view(old_rest)[k + 1] == iv.skip(taken as int)[k + 1]);
                }
            }
        }
        let mut k: usize = 0;
        while k < out.len() && !record_placed_before(&item, &out[k])
            invariant
                k <= out.len(),
                ov == records_view(out@),
                forall|j: int| 0 <= j < k ==> !record_before(item@, #[trigger] ov[j]),
            decreases out.len() - k,
        {
            k = k + 1;
        }
        let ghost iview = item@;
        out.insert(k, item);
        proof {
            let ghost nv = records_view(out@);
            let ghost pn = perm.take(k as int).push(taken as int) + perm.skip(k as int);
            let ghost inp = iv.take(taken + 1);
            assert(iv.take(taken as int) =~= inp.take(taken as int));
            assert(nv =~= ov.take(k as int).push(iview) + ov.skip(k as int));
            assert forall|j: int| k <= j < ov.len() implies record_before(iview, #[trigger] ov[j]) by {
                assert(record_before(iview, ov[k as int]));
                if j > k {
                    assert(!record_before(ov[j], ov[k as int]));
                    lemma_record_order(iview, ov[k as int], ov[j]);
                    lemma_record_order(ov[k as int], ov[j], ov[j]);
                    lemma_record_order(ov[j], ov[k as int], iview);
                    if same_record_rank(ov[k as int], ov[j]) {
                        assert(record_before(iview, ov[j]));
                    }
                }
            }
            assert forall|q: int| 0 <= q < pn.len() implies 0 <= #[trigger] pn[q] < inp.len() && nv[q]
                == inp[pn[q]] by {
                if q < k {
                    assert(pn[q] == perm[q]);
                } else if q == k {
                    assert(pn[q] == taken);
                } else {
                    assert(pn[q] == perm[q - 1]);
                }
            }
            assert forall|a: int, b: int| 0 <= a < b < pn.len() implies pn[a] != pn[b] by {
                if a < k && b < k {
                } else if a < k && b == k {
                    assert(pn[a] == perm[a]);
                } else if a < k {
                    assert(pn[a] == perm[a] && pn[b] == perm[b - 1]);
                } else if a == k {
                    assert(pn[b] == perm[b - 1]);
                } else {
                    assert(pn[a] == perm[a - 1] && pn[b] == perm[b - 1]);
                }
            }
            assert forall|a: int, b: int| 0 <= a < b < nv.len() implies !record_before(
                #[trigger] nv[b],
                #[trigger] nv[a],
            ) by {
                lemma_record_order(nv[a], nv[b], nv[b]);
                if a < k && b == k {
                    assert(!record_before(iview, ov[a]));
                } else if a == k && b > k {
                    assert(record_before(iview, ov[b - 1]));
                    lemma_record_order(iview, ov[b - 1], ov[b - 1]);
                } else if a < k && b > k {
                    assert(nv[a] == ov[a] && nv[b] == ov[b - 1]);
                } else if a > k {
                    assert(nv[a] == ov[a - 1] && nv[b] == ov[b - 1]);
                }
            }
            assert forall|a: int, b: int|
                0 <= a < b < nv.len() && same_record_rank(#[trigger] nv[a], #[trigger] nv[b]) implies pn[a]
                < pn[b] by {
                if a < k && b == k {
                    assert(pn[a] == perm[a]);
                } else if a == k && b > k {
                    assert(record_before(iview, ov[b - 1]));
                    lemma_record_order(iview, ov[b - 1], ov[b - 1]);
                } else if a < k && b > k {
                    assert(nv[a] == ov[a] && nv[b] == ov[b - 1]);
                    assert(pn[a] == perm[a] && pn[b] == perm[b - 1]);
                } else if a > k {
                    assert(nv[a] == ov[a - 1] && nv[b] == ov[b - 1]);
                    assert(pn[a] == perm[a - 1] && pn[b] == perm[b - 1]);
                }
            }
            perm = pn;
        }
        taken = taken + 1;
    }
    assert(iv.take(taken as int) =~= iv);
    out
}

/// The records TrID definitions become, in their order.
pub open spec fn spec_records_of(defs: Seq<ParsedTridDefinition>) -> Seq<RecordView> {
    defs.map_values(|d: ParsedTridDefinition| spec_record_of(d))
}

/// Builds a package from parsed TrID definitions: an empty version label, the validated
/// tags value, and the definitions' records in package order.
pub fn build_trid_xml_package(definitions: Vec<ParsedTridDefinition>) -> (r: DefinitionPackage)
    requires
        forall|i: int| 0 <= i < definitions@.len() ==> priority_fits(#[trigger] definitions@[i]),
    ensures
        r.package_version@ == Seq::<char>::empty(),
        r.tags == LEGACY_VALIDATED_TAGS,
        exists|perm: Seq<int>|
            is_stable_record_order(spec_records_of(definitions@), records_view(r.definitions@), perm),
{
    let ghost all = definitions@;
    let mut records: Vec<DefinitionRecord> = Vec::new();
    let mut rest = definitions;
    let mut taken: usize = 0;
    let total = rest.len();
    while rest.len() > 0
        invariant
            total == all.len(),
            taken + rest@.len() == total,
            rest@ == all.skip(taken as int),
            forall|i: int| 0 <= i < all.len() ==> priority_fits(#[trigger] all[i]),
            records_view(records@) == spec_records_of(all.take(taken as int)),
        decreases rest@.len(),
    {
        let ghost old_rest = rest@;
        let d = rest.remove(0);
        assert(d == all[taken as int]) by {
            assert(old_rest[0] == all.skip(taken as int)[0]);
        }
        assert(rest@ =~= all.skip(taken + 1));
        let ghost prev = records@;
        records.push(d.into_definition_record());
        proof {
            assert(records_view(records@) =~= records_view(prev).push(spec_record_of(all[taken as int])));
            assert(all.take(taken + 1) =~= all.take(taken as int).push(all[taken as int]));
            assert(spec_records_of(all.take(taken + 1)) =~= spec_records_of(all.take(taken as int)).push(
                spec_record_of(all[taken as int]),
            ));
        }
        taken = taken + 1;
    }
    assert(all.take(taken as int) =~= all);
    let ghost unsorted = records_view(records@);
    assert(unsorted == spec_records_of(all));
    let sorted = sort_records(records);
    let r = DefinitionPackage { package_version: String::new(), tags: LEGACY_VALIDATED_TAGS, definitions: sorted };
    proof {
        let perm = choose|perm: Seq<int>| is_stable_record_order(unsorted, records_view(r.definitions@), perm);
        assert(is_stable_record_order(spec_records_of(all), records_view(r.definitions@), perm));
    }
    r
}

/// Whether `path` names an `.xml` file, the extension compared without regard to ASCII
/// case.
pub fn is_xml_file(path: &str) -> (r: bool)
    ensures
        r == path_has_extension(path@, "xml"@),
{
    has_extension(path, "xml")
}

/// Whether `path` names a `.7z` archive, the extension compared without regard to ASCII
/// case.
pub fn is_7z_file(path: &str) -> (r: bool)
    ensures
        r == path_has_extension(path@, "7z"@),
{
    has_extension(path, "7z")
}

} // verus!
