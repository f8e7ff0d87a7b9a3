//! Ranking of TrID definitions that compete for an extension: extension popularity
//! levels, and a score from evidence, popularity and MIME confidence.
use vstd::prelude::*;

use crate::mime::{entries_view, load_word_list, spec_entries, MimeConfidence, MimeResolution};
use crate::text::{chars_equal, chars_of};
use crate::trid::{ParsedTridDefinition, TridPattern};

verus! {

/// Extension lists by popularity level, level 1 the most common.
pub struct ExtensionSeeds {
    levels: Vec<Vec<Vec<char>>>,
}

impl View for ExtensionSeeds {
    type V = Seq<Set<Seq<char>>>;

    closed spec fn view(&self) -> Seq<Set<Seq<char>>> {
        self.levels@.map_values(|l: Vec<Vec<char>>| entries_view(l@).to_set())
    }
}

/// The first level (from 1) whose list holds one of `extensions`, or `None`.
pub open spec fn spec_best_level(levels: Seq<Set<Seq<char>>>, extensions: Seq<Seq<char>>, from: int) -> Option<u8>
    decreases levels.len() - from,
{
    if from < 0 || from >= levels.len() {
        None
    } else if exists|e: int| 0 <= e < extensions.len() && levels[from].contains(#[trigger] extensions[e]) {
        Some((from + 1) as u8)
    } else {
        spec_best_level(levels, extensions, from + 1)
    }
}

impl ExtensionSeeds {
    /// Seeds from the five level lists, most common first (one extension per line; blank
    /// lines ignored; trimmed and lower-cased).
    pub fn from_lists(level1: &str, level2: &str, level3: &str, level4: &str, level5: &str) -> (r: ExtensionSeeds)
        ensures
            r@ == seq![
                spec_entries(level1@),
                spec_entries(level2@),
                spec_entries(level3@),
                spec_entries(level4@),
                spec_entries(level5@),
            ],
    {
        let mut levels: Vec<Vec<Vec<char>>> = Vec::new();
        let l1 = load_word_list(level1);
        let l2 = load_word_list(level2);
        let l3 = load_word_list(level3);
        let l4 = load_word_list(level4);
        let l5 = load_word_list(level5);
        proof {
            assert(entries_view(l1@).to_set() =~= spec_entries(level1@));
            assert(entries_view(l2@).to_set() =~= spec_entries(level2@));
            assert(entries_view(l3@).to_set() =~= spec_entries(level3@));
            assert(entries_view(l4@).to_set() =~= spec_entries(level4@));
            assert(entries_view(l5@).to_set() =~= spec_entries(level5@));
        }
        levels.push(l1);
        levels.push(l2);
        levels.push(l3);
        levels.push(l4);
        levels.push(l5);
        let r = ExtensionSeeds { levels };
        assert(r@ =~= seq![
            spec_entries(level1@),
            spec_entries(level2@),
            spec_entries(level3@),
            spec_entries(level4@),
            spec_entries(level5@),
        ]);
        r
    }

    /// The first level whose list holds one of `extensions`, or `None`.
    pub fn best_level(&self, extensions: &Vec<String>) -> (r: Option<u8>)
        requires
            self@.len() <= 255,
        ensures
            r == spec_best_level(self@, extensions@.map_values(|s: String| s@), 0),
    {
        let ghost exts = extensions@.map_values(|s: String| s@);
        let ghost levels = self@;
        let mut keys: Vec<Vec<char>> = Vec::new();
        for e in 0..extensions.len()
            invariant
                keys.len() == e,
                forall|k: int| 0 <= k < e ==> (#[trigger] keys@[k])@ == extensions@[k]@,
        {
            keys.push(chars_of(extensions[e].as_str()));
        }
        for index in 0..self.levels.len()
            invariant
                levels == self@,
                levels.len() <= 255,
                levels.len() == self.levels.len(),
                exts == extensions@.map_values(|s: String| s@),
                keys.len() == extensions.len(),
                forall|k: int| 0 <= k < keys.len() ==> (#[trigger] keys@[k])@ == extensions@[k]@,
                spec_best_level(levels, exts, 0) == spec_best_level(levels, exts, index as int),
        {
            let list = &self.levels[index];
            assert(levels[index as int] == entries_view(list@).to_set());
            for e in 0..keys.len()
                invariant
                    index < levels.len(),
                    levels.len() <= 255,
                    levels.len() == self.levels.len(),
                    levels == self@,
                    spec_best_level(levels, exts, 0) == spec_best_level(levels, exts, index as int),
                    levels[index as int] == entries_view(list@).to_set(),
                    exts == extensions@.map_values(|s: String| s@),
                    keys.len() == extensions.len(),
                    forall|k: int| 0 <= k < keys.len() ==> (#[trigger] keys@[k])@ == extensions@[k]@,
                    forall|k: int| 0 <= k < e ==> !levels[index as int].contains(#[trigger] exts[k]),
            {
                let mut found = false;
                for j in 0..list.len()
                    invariant
                        e < keys.len(),
                        !found ==> forall|q: int| 0 <= q < j ==> (#[trigger] list@[q])@ != keys@[e as int]@,
                        found ==> entries_view(list@).contains(keys@[e as int]@),
                {
                    if !found && chars_equal(list[j].as_slice(), keys[e].as_slice()) {
                        assert(entries_view(list@)[j as int] == keys@[e as int]@);
                        found = true;
                    }
                }
                assert(exts[e as int] == keys@[e as int]@);
                if found {
                    proof {
                        assert(levels[index as int].contains(exts[e as int]));
                    }
                    return Some((index + 1) as u8);
                }
                proof {
                    if entries_view(list@).contains(keys@[e as int]@) {
                        let q = choose|q: int| 0 <= q < entries_view(list@).len() && entries_view(list@)[q] == keys@[e as int]@;
                        assert(list@[q]@ == keys@[e as int]@);
                    }
                }
            }
        }
        None
    }
}

/// The floor of the binary logarithm of `n` (at least 1).
pub open spec fn floor_log2(n: nat) -> nat
    decreases n,
{
    if n <= 1 {
        0
    } else {
        1 + floor_log2(n / 2)
    }
}

fn floor_log2_exec(n: u32) -> (r: u32)
    requires
        n >= 1,
    ensures
        r == floor_log2(n as nat),
        r <= 31,
{
    let mut v = n;
    let mut r: u32 = 0;
    proof {
        lemma_pow2_32();
        lemma_floor_log2_bound(n as nat, 31);
    }
    while v > 1
        invariant
            v >= 1,
            r + floor_log2(v as nat) == floor_log2(n as nat),
            floor_log2(n as nat) <= 31,
        decreases v,
    {
        v = v / 2;
        r = r + 1;
    }
    r
}

proof fn lemma_floor_log2_bound(n: nat, k: nat)
    requires
        n < pow2_nat(k + 1),
    ensures
        floor_log2(n) <= k,
    decreases k,
{
    if n > 1 && k > 0 {
        assert(pow2_nat(k + 1) == 2 * pow2_nat(k));
        lemma_floor_log2_bound(n / 2, (k - 1) as nat);
    } else if n > 1 {
        reveal_with_fuel(pow2_nat, 2);
    }
}

/// Two to the power `e`.
pub open spec fn pow2_nat(e: nat) -> nat
    decreases e,
{
    if e == 0 {
        1
    } else {
        2 * pow2_nat((e - 1) as nat)
    }
}

proof fn lemma_pow2_32()
    ensures
        pow2_nat(32) == 4294967296,
{
    reveal_with_fuel(pow2_nat, 33);
}

/// The score of a level.
pub open spec fn level_score(level: u8) -> int {
    if level == 1 {
        1000
    } else if level == 2 {
        820
    } else if level == 3 {
        640
    } else if level == 4 {
        460
    } else if level == 5 {
        280
    } else {
        0
    }
}

/// The score of a MIME confidence.
pub open spec fn confidence_score(c: MimeConfidence) -> int {
    match c {
        MimeConfidence::ExactIana => 250,
        MimeConfidence::ExactCustom => 220,
        MimeConfidence::FuzzyIana => 140,
        MimeConfidence::FuzzyCustom => 120,
    }
}

/// The summed pattern score: 120 per pattern at offset zero, 45 per other pattern.
pub open spec fn pattern_score(ps: Seq<TridPattern>) -> int
    decreases ps.len(),
{
    if ps.len() == 0 {
        0
    } else {
        pattern_score(ps.drop_last()) + if ps.last().position == 0 {
            120int
        } else {
            45int
        }
    }
}

/// The score of a definition competing for an extension: its level, its patterns, twelve
/// per string up to 120, twenty per doubling of its file count, and its MIME confidence.
pub open spec fn spec_sluice_score(d: ParsedTridDefinition, level: u8, confidence: MimeConfidence) -> int {
    level_score(level) + pattern_score(d.signature.patterns@) + (if d.signature.strings@.len() * 12
        < 120 {
        d.signature.strings@.len() * 12
    } else {
        120
    }) + floor_log2(if d.file_count == 0 { 1 } else { d.file_count as nat }) * 20 + confidence_score(
        confidence,
    )
}

proof fn lemma_pattern_score_prefix(ps: Seq<TridPattern>, j: int)
    requires
        0 <= j <= ps.len(),
    ensures
        0 <= pattern_score(ps.take(j)) <= pattern_score(ps),
    decreases ps.len() - j,
{
    if j < ps.len() {
        lemma_pattern_score_prefix(ps, j + 1);
        assert(ps.take(j + 1).drop_last() =~= ps.take(j));
        lemma_pattern_score_nonneg(ps.take(j));
    } else {
        assert(ps.take(j) =~= ps);
        lemma_pattern_score_nonneg(ps);
    }
}

proof fn lemma_pattern_score_nonneg(ps: Seq<TridPattern>)
    ensures
        pattern_score(ps) >= 0,
    decreases ps.len(),
{
    if ps.len() > 0 {
        lemma_pattern_score_nonneg(ps.drop_last());
    }
}

/// The score of a definition competing for an extension.
pub fn score_definition(definition: &ParsedTridDefinition, level: u8, confidence: MimeConfidence) -> (r: i32)
    requires
        spec_sluice_score(*definition, level, confidence) <= i32::MAX,
        definition.signature.strings@.len() * 12 <= i32::MAX,
    ensures
        r == spec_sluice_score(*definition, level, confidence),
{
    let level_points: i64 = if level == 1 {
        1000
    } else if level == 2 {
        820
    } else if level == 3 {
        640
    } else if level == 4 {
        460
    } else if level == 5 {
        280
    } else {
        0
    };
    let patterns = &definition.signature.patterns;
    let mut pattern_points: i64 = 0;
    proof {
        lemma_pow2_32();
        lemma_floor_log2_bound(if definition.file_count == 0 { 1 } else { definition.file_count as nat }, 31);
        lemma_pattern_score_prefix(patterns@, 0);
    }
    for j in 0..patterns.len()
        invariant
            pattern_points == pattern_score(patterns@.take(j as int)),
            pattern_score(patterns@) <= i32::MAX,
    {
        proof {
            assert(patterns@.take(j + 1).drop_last() =~= patterns@.take(j as int));
            lemma_pattern_score_prefix(patterns@, j + 1);
        }
        pattern_points = pattern_points + if patterns[j].position == 0 {
            120
        } else {
            45
        };
    }
    assert(patterns@.take(patterns.len() as int) =~= patterns@);
    let string_count = definition.signature.strings.len();
    let string_points: i64 = if string_count < 10 {
        (string_count as i64) * 12
    } else {
        120
    };
    let count = if definition.file_count == 0 {
        1
    } else {
        definition.file_count
    };
    let file_points = (floor_log2_exec(count) as i64) * 20;
    let confidence_points: i64 = match confidence {
        MimeConfidence::ExactIana => 250,
        MimeConfidence::ExactCustom => 220,
        MimeConfidence::FuzzyIana => 140,
        MimeConfidence::FuzzyCustom => 120,
    };
    (level_points + pattern_points + string_points + file_points + confidence_points) as i32
}

/// A definition competing for an extension, with its canonical MIME type, level and score.
#[derive(Debug)]
pub struct SluiceCandidate {
    pub definition: ParsedTridDefinition,
    pub canonical_mime: String,
    pub level: u8,
    pub score: i32,
}

impl SluiceCandidate {
    /// The candidate a definition makes at `level` with its MIME resolution.
    pub fn from_definition(definition: ParsedTridDefinition, level: u8, resolution: &MimeResolution) -> (r: SluiceCandidate)
        requires
            spec_sluice_score(definition, level, resolution.confidence) <= i32::MAX,
            definition.signature.strings@.len() * 12 <= i32::MAX,
        ensures
            r.definition == definition,
            r.canonical_mime@ == resolution.canonical@,
            r.level == level,
            r.score == spec_sluice_score(definition, level, resolution.confidence),
    {
        let score = score_definition(&definition, level, resolution.confidence);
        SluiceCandidate { definition, canonical_mime: resolution.canonical.clone(), level, score }
    }
}

} // verus!
