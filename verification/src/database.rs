//! The indexed definition database: definitions bucketed by the first byte of
//! their signature patterns, so that a file header narrows the candidates quickly.
use vstd::prelude::*;

use crate::definitions::{
    patterns_view, records_view, DefinitionPackage, DefinitionRecord, PatternView, RecordView,
    SignatureDefinition, SignaturePattern, CATCH_ALL_INDEX,
};

verus! {

/// Whether a record carries no usable first pattern byte: it has no patterns, or one
/// of its patterns is empty. Such records are candidates for every header.
pub open spec fn is_catch_all(r: RecordView) -> bool {
    r.signature.patterns.len() == 0 || exists|j: int|
        0 <= j < r.signature.patterns.len() && (#[trigger] r.signature.patterns[j]).data.len() == 0
}

/// Whether one of the record's patterns starts with byte `b`.
pub open spec fn starts_with_byte(r: RecordView, b: u8) -> bool {
    exists|j: int|
        0 <= j < r.signature.patterns.len() && (#[trigger] r.signature.patterns[j]).data.len() > 0
            && r.signature.patterns[j].data[0] == b
}

/// Whether one of the record's patterns sits at offset `pos`.
pub open spec fn has_pattern_at(r: RecordView, pos: int) -> bool {
    exists|j: int|
        0 <= j < r.signature.patterns.len() && (#[trigger] r.signature.patterns[j]).position == pos
}

/// Whether the record is filed under index slot `slot` (a byte, or the catch-all slot).
pub open spec fn in_slot(r: RecordView, slot: int) -> bool {
    if slot == CATCH_ALL_INDEX {
        is_catch_all(r)
    } else {
        starts_with_byte(r, slot as u8)
    }
}

/// Whether definition `idx` is a candidate for `header`: it is a catch-all record, or for
/// some offset of the header one of its patterns starts with the byte found there and one
/// of its patterns sits at that offset.
pub open spec fn is_candidate(defs: Seq<RecordView>, header: Seq<u8>, idx: int) -> bool {
    0 <= idx < defs.len() && (is_catch_all(defs[idx]) || exists|pos: int|
        0 <= pos < header.len() && starts_with_byte(defs[idx], #[trigger] header[pos])
            && has_pattern_at(defs[idx], pos))
}

/// The slot holds exactly the indices of the records filed under it.
pub open spec fn slot_exact(slot: Seq<usize>, defs: Seq<RecordView>, s: int) -> bool {
    &&& forall|k: int| 0 <= k < slot.len() ==> (#[trigger] slot[k]) < defs.len() && in_slot(
        defs[slot[k] as int],
        s,
    )
    &&& forall|idx: int| 0 <= idx < defs.len() && in_slot(#[trigger] defs[idx], s) ==> slot.contains(
        idx as usize,
    )
}

/// Indexed in-memory database used by the analysis engine to narrow definition candidates quickly.
pub struct DefinitionDatabase {
    definitions: Vec<DefinitionRecord>,
    pattern_index: Vec<Vec<usize>>,
}

impl View for DefinitionDatabase {
    type V = Seq<RecordView>;

    closed spec fn view(&self) -> Seq<RecordView> {
        records_view(self.definitions@)
    }
}

impl DefinitionDatabase {
    #[verifier::type_invariant]
    spec fn well_formed(self) -> bool {
        &&& self.pattern_index.len() == CATCH_ALL_INDEX + 1
        &&& forall|s: int|
            0 <= s <= CATCH_ALL_INDEX ==> slot_exact(
                #[trigger] self.pattern_index@[s]@,
                records_view(self.definitions@),
                s,
            )
    }

    /// Builds the database from the definitions of `package`.
    pub fn from_package(package: &DefinitionPackage) -> (db: DefinitionDatabase)
        ensures
            db@ == package@.definitions,
    {
        let definitions = copy_records(&package.definitions);
        let ghost defs = records_view(definitions@);
        let mut pattern_index: Vec<Vec<usize>> = Vec::new();
        let mut s: usize = 0;
        while s <= CATCH_ALL_INDEX
            invariant
                s <= CATCH_ALL_INDEX + 1,
                pattern_index.len() == s,
                defs == records_view(definitions@),
                forall|c: int| 0 <= c < s ==> slot_exact(#[trigger] pattern_index@[c]@, defs, c),
            decreases CATCH_ALL_INDEX + 1 - s,
        {
            let slot = index_slot(&definitions, s);
            pattern_index.push(slot);
            s = s + 1;
        }
        DefinitionDatabase { definitions, pattern_index }
    }

    /// The number of definitions.
    pub fn len(&self) -> (n: usize)
        ensures
            n == self@.len(),
    {
        self.definitions.len()
    }

    /// The indices of the definitions that are candidates for `header`, ascending and
    /// without repeats.
    pub fn candidate_indices(&self, header: &[u8]) -> (r: Vec<usize>)
        ensures
            self@.len() <= usize::MAX,
            forall|i: int, j: int| 0 <= i < j < r.len() ==> r[i] < r[j],
            forall|i: int| 0 <= i < r.len() ==> is_candidate(self@, header@, #[trigger] r[i] as int),
            forall|idx: int| is_candidate(self@, header@, idx) ==> r@.contains(idx as usize),
    {
        proof {
            use_type_invariant(self);
        }
        let ghost defs = self@;
        let n = self.definitions.len();
        let mut marks: Vec<bool> = Vec::new();
        while marks.len() < n
            invariant
                marks.len() <= n,
                forall|i: int| 0 <= i < marks.len() ==> !marks[i],
            decreases n - marks.len(),
        {
            marks.push(false);
        }
        let catch_all = &self.pattern_index[CATCH_ALL_INDEX];
        assert(slot_exact(self.pattern_index@[CATCH_ALL_INDEX as int]@, defs, CATCH_ALL_INDEX as int));
        for k in 0..catch_all.len()
            invariant
                n == defs.len(),
                defs == self@,
                marks.len() == n,
                catch_all@ == self.pattern_index@[CATCH_ALL_INDEX as int]@,
                slot_exact(catch_all@, defs, CATCH_ALL_INDEX as int),
                forall|i: int| 0 <= i < n && #[trigger] marks[i] ==> is_candidate(defs, header@, i),
                forall|k2: int| 0 <= k2 < k ==> marks[#[trigger] catch_all@[k2] as int],
        {
            let idx = catch_all[k];
            marks.set(idx, true);
        }
        proof {
            assert forall|i: int| 0 <= i < n && is_catch_all(#[trigger] defs[i]) implies marks[i] by {
                assert(in_slot(defs[i], CATCH_ALL_INDEX as int));
                assert(catch_all@.contains(i as usize));
                let k2 = choose|k2: int| 0 <= k2 < catch_all@.len() && catch_all@[k2] == i as usize;
                assert(marks[catch_all@[k2] as int]);
            }
        }
        for position in 0..header.len()
            invariant
                n == defs.len(),
                defs == self@,
                marks.len() == n,
                self.pattern_index.len() == CATCH_ALL_INDEX + 1,
                forall|s: int|
                    0 <= s <= CATCH_ALL_INDEX ==> slot_exact(
                        #[trigger] self.pattern_index@[s]@,
                        defs,
                        s,
                    ),
                forall|i: int| 0 <= i < n && #[trigger] marks[i] ==> is_candidate(defs, header@, i),
                forall|i: int| 0 <= i < n && is_catch_all(#[trigger] defs[i]) ==> marks[i],
                forall|i: int, pos: int|
                    0 <= i < n && 0 <= pos < position && starts_with_byte(
                        #[trigger] defs[i],
                        #[trigger] header@[pos],
                    ) && has_pattern_at(defs[i], pos) ==> marks[i],
        {
            let byte = header[position];
            let slot = &self.pattern_index[byte as usize];
            assert(slot_exact(slot@, defs, byte as int));
            for k in 0..slot.len()
                invariant
                    n == defs.len(),
                    defs == self@,
                    marks.len() == n,
                    0 <= position < header@.len(),
                    byte == header@[position as int],
                    slot_exact(slot@, defs, byte as int),
                    forall|i: int| 0 <= i < n && #[trigger] marks[i] ==> is_candidate(defs, header@, i),
                    forall|i: int| 0 <= i < n && is_catch_all(#[trigger] defs[i]) ==> marks[i],
                    forall|i: int, pos: int|
                        0 <= i < n && 0 <= pos < position && starts_with_byte(
                            #[trigger] defs[i],
                            #[trigger] header@[pos],
                        ) && has_pattern_at(defs[i], pos) ==> marks[i],
                    forall|k2: int|
                        0 <= k2 < k && has_pattern_at(defs[slot@[k2] as int], position as int)
                            ==> marks[#[trigger] slot@[k2] as int],
            {
                let idx = slot[k];
                assert(idx < n && in_slot(defs[idx as int], byte as int));
                if record_has_pattern_at(&self.definitions[idx], position) {
                    proof {
                        assert(defs[idx as int] == self.definitions@[idx as int]@);
                        assert(starts_with_byte(defs[idx as int], header@[position as int]));
                        assert(is_candidate(defs, header@, idx as int));
                    }
                    marks.set(idx, true);
                } else {
                    assert(defs[idx as int] == self.definitions@[idx as int]@);
                }
            }
            proof {
                assert forall|i: int, pos: int|
                    0 <= i < n && 0 <= pos < position + 1 && starts_with_byte(
                        #[trigger] defs[i],
                        #[trigger] header@[pos],
                    ) && has_pattern_at(defs[i], pos) implies marks[i] by {
                    if pos == position {
                        assert(in_slot(defs[i], byte as int));
                        assert(slot@.contains(i as usize));
                        let k2 = choose|k2: int| 0 <= k2 < slot@.len() && slot@[k2] == i as usize;
                        assert(marks[slot@[k2] as int]);
                    }
                }
            }
        }
        let mut out: Vec<usize> = Vec::new();
        for i in 0..n
            invariant
                n == defs.len(),
                marks.len() == n,
                forall|a: int, b: int| 0 <= a < b < out.len() ==> out[a] < out[b],
                forall|a: int| 0 <= a < out.len() ==> #[trigger] out[a] < i && marks[out[a] as int],
                forall|i2: int| 0 <= i2 < i && #[trigger] marks[i2] ==> out@.contains(i2 as usize),
        {
            if marks[i] {
                let ghost prev = out@;
                out.push(i);
                proof {
                    assert forall|i2: int| 0 <= i2 < i + 1 && #[trigger] marks[i2] implies out@.contains(
                        i2 as usize,
                    ) by {
                        if i2 < i {
                            let a = choose|a: int| 0 <= a < prev.len() && prev[a] == i2 as usize;
                            assert(out@[a] == i2 as usize);
                        } else {
                            assert(out@[out.len() - 1] == i2 as usize);
                        }
                    }
                }
            }
        }
        proof {
            assert forall|idx: int| is_candidate(defs, header@, idx) implies out@.contains(
                idx as usize,
            ) by {
                if is_catch_all(defs[idx]) {
                    assert(marks[idx]);
                } else {
                    let pos = choose|pos: int|
                        0 <= pos < header@.len() && starts_with_byte(defs[idx], #[trigger] header@[pos])
                            && has_pattern_at(defs[idx], pos);
                    assert(starts_with_byte(defs[idx], header@[pos]));
                    assert(marks[idx]);
                }
            }
        }
        out
    }

    /// The definition at index `idx`.
    pub fn definition(&self, idx: usize) -> (r: &DefinitionRecord)
        requires
            idx < self@.len(),
        ensures
            r@ == self@[idx as int],
    {
        &self.definitions[idx]
    }
}

/// Whether `r` belongs under index slot `slot`.
fn record_in_slot(r: &DefinitionRecord, slot: usize) -> (b: bool)
    requires
        slot <= CATCH_ALL_INDEX,
    ensures
        b == in_slot(r@, slot as int),
{
    let patterns = &r.signature.patterns;
    let ghost pv = r@.signature.patterns;
    assert(pv.len() == patterns.len());
    if slot == CATCH_ALL_INDEX {
        if patterns.len() == 0 {
            return true;
        }
        for j in 0..patterns.len()
            invariant
                slot == CATCH_ALL_INDEX,
                pv == patterns_view(patterns@),
                pv == r@.signature.patterns,
                pv.len() == patterns.len(),
                forall|jj: int| 0 <= jj < j ==> (#[trigger] pv[jj]).data.len() > 0,
        {
            if patterns[j].data.len() == 0 {
                assert(pv[j as int] == patterns@[j as int]@);
                assert(r@.signature.patterns[j as int].data.len() == 0);
                return true;
            }
        }
        false
    } else {
        for j in 0..patterns.len()
            invariant
                slot < CATCH_ALL_INDEX,
                pv == patterns_view(patterns@),
                pv == r@.signature.patterns,
                pv.len() == patterns.len(),
                forall|jj: int|
                    0 <= jj < j ==> !((#[trigger] pv[jj]).data.len() > 0 && pv[jj].data[0] == slot as u8),
        {
            let data = &patterns[j].data;
            if data.len() > 0 && data[0] as usize == slot {
                assert(pv[j as int] == patterns@[j as int]@);
                assert(r@.signature.patterns[j as int].data.len() > 0);
                assert(r@.signature.patterns[j as int].data[0] == slot as u8);
                return true;
            }
        }
        false
    }
}

/// Whether one of the patterns of `r` sits at offset `position`.
fn record_has_pattern_at(r: &DefinitionRecord, position: usize) -> (b: bool)
    ensures
        b == has_pattern_at(r@, position as int),
{
    let patterns = &r.signature.patterns;
    let ghost pv = r@.signature.patterns;
    assert(pv.len() == patterns.len());
    for j in 0..patterns.len()
        invariant
            pv == patterns_view(patterns@),
            pv == r@.signature.patterns,
            pv.len() == patterns.len(),
            forall|jj: int| 0 <= jj < j ==> (#[trigger] pv[jj]).position != position as int,
    {
        if patterns[j].position as usize == position {
            assert(pv[j as int] == patterns@[j as int]@);
            assert(r@.signature.patterns[j as int].position == position as int);
            return true;
        }
    }
    false
}

/// The indices of the definitions filed under slot `s`, ascending.
fn index_slot(definitions: &Vec<DefinitionRecord>, s: usize) -> (slot: Vec<usize>)
    requires
        s <= CATCH_ALL_INDEX,
    ensures
        slot_exact(slot@, records_view(definitions@), s as int),
{
    let ghost defs = records_view(definitions@);
    let mut slot: Vec<usize> = Vec::new();
    for idx in 0..definitions.len()
        invariant
            s <= CATCH_ALL_INDEX,
            defs == records_view(definitions@),
            forall|k: int| 0 <= k < slot.len() ==> (#[trigger] slot[k]) < idx && in_slot(
                defs[slot[k] as int],
                s as int,
            ),
            forall|i: int| 0 <= i < idx && in_slot(#[trigger] defs[i], s as int) ==> slot@.contains(
                i as usize,
            ),
    {
        if record_in_slot(&definitions[idx], s) {
            let ghost prev = slot@;
            slot.push(idx);
            proof {
                assert forall|i: int| 0 <= i < idx + 1 && in_slot(#[trigger] defs[i], s as int) implies slot@.contains(
                    i as usize,
                ) by {
                    if i < idx {
                        let a = choose|a: int| 0 <= a < prev.len() && prev[a] == i as usize;
                        assert(slot@[a] == i as usize);
                    } else {
                        assert(slot@[slot.len() - 1] == i as usize);
                    }
                }
            }
        }
    }
    slot
}

/// A copy of a pattern.
fn copy_pattern(p: &SignaturePattern) -> (r: SignaturePattern)
    ensures
        r@ == p@,
{
    SignaturePattern { position: p.position, data: p.data.clone() }
}

/// A copy of a record.
pub fn copy_record(r: &DefinitionRecord) -> (c: DefinitionRecord)
    ensures
        c@ == r@,
{
    let mut patterns: Vec<SignaturePattern> = Vec::new();
    for j in 0..r.signature.patterns.len()
        invariant
            patterns.len() == j,
            forall|k: int| 0 <= k < j ==> (#[trigger] patterns@[k])@ == r.signature.patterns@[k]@,
    {
        patterns.push(copy_pattern(&r.signature.patterns[j]));
    }
    let mut strings: Vec<Vec<u8>> = Vec::new();
    for j in 0..r.signature.strings.len()
        invariant
            strings.len() == j,
            forall|k: int| 0 <= k < j ==> (#[trigger] strings@[k])@ == r.signature.strings@[k]@,
    {
        strings.push(r.signature.strings[j].clone());
    }
    let mut extensions: Vec<String> = Vec::new();
    for j in 0..r.extensions.len()
        invariant
            extensions.len() == j,
            forall|k: int| 0 <= k < j ==> (#[trigger] extensions@[k])@ == r.extensions@[k]@,
    {
        extensions.push(r.extensions[j].clone());
    }
    let c = DefinitionRecord {
        file_type: r.file_type.clone(),
        extensions,
        mime_type: r.mime_type.clone(),
        remarks: r.remarks.clone(),
        signature: SignatureDefinition { patterns, strings },
        priority_level: r.priority_level,
    };
    proof {
        assert(patterns_view(c.signature.patterns@) =~= patterns_view(r.signature.patterns@));
        assert(c.signature.strings@.map_values(|s: Vec<u8>| s@) =~= r.signature.strings@.map_values(
            |s: Vec<u8>| s@,
        ));
        assert(c.extensions@.map_values(|e: String| e@) =~= r.extensions@.map_values(|e: String| e@));
    }
    c
}

/// A copy of a sequence of records.
pub fn copy_records(rs: &Vec<DefinitionRecord>) -> (c: Vec<DefinitionRecord>)
    ensures
        records_view(c@) == records_view(rs@),
{
    let mut c: Vec<DefinitionRecord> = Vec::new();
    for j in 0..rs.len()
        invariant
            c.len() == j,
            forall|k: int| 0 <= k < j ==> (#[trigger] c@[k])@ == rs@[k]@,
    {
        c.push(copy_record(&rs[j]));
    }
    assert(records_view(c@) =~= records_view(rs@));
    c
}

} // verus!
