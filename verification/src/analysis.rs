//! The content analysis engine: byte-pattern scoring of definition candidates,
//! ranking of the matches, aggregation of the top MIME type and extension, and the
//! text/binary heuristic.
use vstd::prelude::*;
use vstd::utf8::valid_utf8;

use crate::database::{is_candidate, DefinitionDatabase};
use crate::definitions::{patterns_view, DefinitionRecord, PatternView, RecordView};
use crate::text::{
    chars_equal, chars_less, chars_match_at, chars_of, is_valid_utf8, lemma_lex_order, lex_lt,
    lower_chars, spec_lower, spec_trim, spec_trim_start_by, string_from_chars, trim_start_char,
    trim_whitespace,
};

verus! {

/// The number of leading bytes examined for signatures.
pub const SCAN_WINDOW_SIZE: usize = 8192;

/// High-level content classification for the scanned bytes.
#[derive(Debug, Clone, Copy, PartialEq, Eq, Structural)]
pub enum ContentKind {
    /// The scanned content looks like text.
    Text,
    /// The scanned content looks like binary data.
    Binary,
    /// The scanner could not determine the content kind.
    Unknown,
}

/// How many leading bytes of a file of `file_size` bytes are scanned.
pub fn scan_length(file_size: u64) -> (n: usize)
    ensures
        n == (if file_size < SCAN_WINDOW_SIZE { file_size as int } else { SCAN_WINDOW_SIZE as int }),
{
    if file_size < SCAN_WINDOW_SIZE as u64 {
        file_size as usize
    } else {
        SCAN_WINDOW_SIZE
    }
}

/// Whether `pattern` is non-empty and occurs in `buffer` at `offset`.
pub open spec fn spec_matches_pattern(buffer: Seq<u8>, offset: int, pattern: Seq<u8>) -> bool {
    pattern.len() > 0 && offset + pattern.len() <= buffer.len() && buffer.subrange(
        offset,
        offset + pattern.len(),
    ) == pattern
}

/// Whether `pattern` is non-empty and occurs in `buffer` at `offset`.
pub fn matches_pattern(buffer: &[u8], offset: usize, pattern: &[u8]) -> (r: bool)
    ensures
        r == spec_matches_pattern(buffer@, offset as int, pattern@),
{
    if pattern.len() == 0 || offset > buffer.len() || buffer.len() - offset < pattern.len() {
        return false;
    }
    let blen = buffer.len();
    let mut k: usize = 0;
    while k < pattern.len()
        invariant
            blen == buffer@.len(),
            offset + pattern@.len() <= buffer@.len(),
            k <= pattern@.len(),
            forall|j: int| 0 <= j < k ==> buffer@[offset + j] == pattern@[j],
        decreases pattern@.len() - k,
    {
        assert(offset + k < buffer@.len());
        if buffer[offset + k] != pattern[k] {
            assert(buffer@.subrange(offset as int, offset + pattern@.len())[k as int]
                != pattern@[k as int]);
            return false;
        }
        k = k + 1;
    }
    assert(buffer@.subrange(offset as int, offset + pattern@.len()) =~= pattern@);
    true
}

/// Whether `needle` is non-empty and occurs somewhere in `haystack`.
pub open spec fn spec_contains_sequence(haystack: Seq<u8>, needle: Seq<u8>) -> bool {
    needle.len() > 0 && exists|i: int|
        0 <= i && i + needle.len() <= haystack.len() && #[trigger] haystack.subrange(
            i,
            i + needle.len(),
        ) == needle
}

/// Whether `needle` is non-empty and occurs somewhere in `haystack`.
pub fn contains_sequence(haystack: &[u8], needle: &[u8]) -> (r: bool)
    ensures
        r == spec_contains_sequence(haystack@, needle@),
{
    if needle.len() == 0 || needle.len() > haystack.len() {
        return false;
    }
    let hlen = haystack.len();
    let last = hlen - needle.len();
    let mut i: usize = 0;
    while i <= last
        invariant
            hlen == haystack@.len(),
            last + needle@.len() == haystack@.len(),
            needle@.len() > 0,
            i <= last + 1,
            forall|k: int|
                0 <= k < i ==> #[trigger] haystack@.subrange(k, k + needle@.len()) != needle@,
        decreases last + 1 - i,
    {
        if matches_pattern(haystack, i, needle) {
            return true;
        }
        i = i + 1;
    }
    false
}

/// `buffer` without its trailing zero bytes.
pub open spec fn spec_trim_nulls(buffer: Seq<u8>) -> Seq<u8>
    decreases buffer.len(),
{
    if buffer.len() > 0 && buffer.last() == 0 {
        spec_trim_nulls(buffer.drop_last())
    } else {
        buffer
    }
}

/// `buffer` without its trailing zero bytes.
pub fn trim_trailing_null_bytes(buffer: Vec<u8>) -> (r: Vec<u8>)
    ensures
        r@ == spec_trim_nulls(buffer@),
{
    let mut buffer = buffer;
    let ghost original = buffer@;
    while buffer.len() > 0 && buffer[buffer.len() - 1] == 0
        invariant
            spec_trim_nulls(buffer@) == spec_trim_nulls(original),
        decreases buffer@.len(),
    {
        let ghost before = buffer@;
        buffer.pop();
        assert(buffer@ =~= before.drop_last());
    }
    buffer
}

/// An extension as the reports carry it: trimmed, without leading dots, in ASCII lower
/// case.
pub open spec fn spec_clean_extension(ext: Seq<char>) -> Seq<char> {
    spec_lower(spec_trim_start_by(spec_trim(ext), |c: char| c == '.'))
}

/// The cleaned form of `ext`, or `None` when nothing is left of it.
pub open spec fn spec_normalized_extension(ext: Seq<char>) -> Option<Seq<char>> {
    if spec_clean_extension(ext).len() > 0 {
        Some(spec_clean_extension(ext))
    } else {
        None
    }
}

fn clean_extension(ext: &str) -> (r: Vec<char>)
    ensures
        r@ == spec_clean_extension(ext@),
{
    let cs = chars_of(ext);
    let trimmed = trim_whitespace(cs.as_slice());
    let undotted = trim_start_char(trimmed.as_slice(), '.');
    lower_chars(undotted.as_slice())
}

/// The extension of a source name as reports carry it: trimmed, without leading dots,
/// lower-cased, and `None` when nothing is left.
pub fn normalized_extension(ext: &str) -> (r: Option<String>)
    ensures
        match r {
            Some(s) => spec_normalized_extension(ext@) == Some(s@),
            None => spec_normalized_extension(ext@) is None,
        },
{
    let cleaned = clean_extension(ext);
    if cleaned.len() == 0 {
        None
    } else {
        Some(string_from_chars(cleaned.as_slice()))
    }
}

/// The cleaned extensions of a list, dropping those with nothing left, in order.
pub open spec fn spec_normalize_extensions(exts: Seq<Seq<char>>) -> Seq<Seq<char>>
    decreases exts.len(),
{
    if exts.len() == 0 {
        Seq::empty()
    } else {
        let rest = spec_normalize_extensions(exts.drop_last());
        if spec_clean_extension(exts.last()).len() > 0 {
            rest.push(spec_clean_extension(exts.last()))
        } else {
            rest
        }
    }
}

/// The cleaned extensions of a list, dropping those with nothing left, in order.
pub fn normalize_extensions(extensions: &[String]) -> (r: Vec<String>)
    ensures
        r@.map_values(|s: String| s@) == spec_normalize_extensions(
            extensions@.map_values(|s: String| s@),
        ),
{
    let ghost all = extensions@.map_values(|s: String| s@);
    let mut out: Vec<String> = Vec::new();
    for i in 0..extensions.len()
        invariant
            all == extensions@.map_values(|s: String| s@),
            out@.map_values(|s: String| s@) == spec_normalize_extensions(all.take(i as int)),
    {
        let cleaned = clean_extension(extensions[i].as_str());
        let ghost prev = out@;
        assert(all.take(i + 1).drop_last() =~= all.take(i as int));
        assert(all.take(i + 1).last() == extensions@[i as int]@);
        if cleaned.len() > 0 {
            out.push(string_from_chars(cleaned.as_slice()));
            assert(out@.map_values(|s: String| s@) =~= prev.map_values(|s: String| s@).push(
                cleaned@,
            ));
        }
    }
    assert(all.take(extensions.len() as int) =~= all);
    out
}

/// The byte-order mark `buffer` starts with, by encoding name.
pub open spec fn spec_bom(buffer: Seq<u8>) -> Option<Seq<char>> {
    if buffer.len() >= 4 && buffer[0] == 0x00 && buffer[1] == 0x00 && buffer[2] == 0xFE
        && buffer[3] == 0xFF {
        Some("utf-32be"@)
    } else if buffer.len() >= 4 && buffer[0] == 0xFF && buffer[1] == 0xFE && buffer[2] == 0x00
        && buffer[3] == 0x00 {
        Some("utf-32le"@)
    } else if buffer.len() >= 3 && buffer[0] == 0xEF && buffer[1] == 0xBB && buffer[2] == 0xBF {
        Some("utf-8"@)
    } else if buffer.len() >= 2 && buffer[0] == 0xFE && buffer[1] == 0xFF {
        Some("utf-16be"@)
    } else if buffer.len() >= 2 && buffer[0] == 0xFF && buffer[1] == 0xFE {
        Some("utf-16le"@)
    } else {
        None
    }
}

/// The byte-order mark `buffer` starts with, by encoding name.
pub fn try_detect_bom(buffer: &[u8]) -> (r: Option<&'static str>)
    ensures
        match r {
            Some(s) => spec_bom(buffer@) == Some(s@),
            None => spec_bom(buffer@) is None,
        },
{
    let n = buffer.len();
    if n >= 4 && buffer[0] == 0x00 && buffer[1] == 0x00 && buffer[2] == 0xFE && buffer[3] == 0xFF {
        Some("utf-32be")
    } else if n >= 4 && buffer[0] == 0xFF && buffer[1] == 0xFE && buffer[2] == 0x00 && buffer[3]
        == 0x00 {
        Some("utf-32le")
    } else if n >= 3 && buffer[0] == 0xEF && buffer[1] == 0xBB && buffer[2] == 0xBF {
        Some("utf-8")
    } else if n >= 2 && buffer[0] == 0xFE && buffer[1] == 0xFF {
        Some("utf-16be")
    } else if n >= 2 && buffer[0] == 0xFF && buffer[1] == 0xFE {
        Some("utf-16le")
    } else {
        None
    }
}

/// Whether a byte is a tab, line feed, carriage return or printable ASCII.
pub open spec fn is_printable_byte(b: u8) -> bool {
    b == 0x09 || b == 0x0A || b == 0x0D || (0x20 <= b && b <= 0x7E)
}

/// Whether a byte is an ASCII control character other than NUL, tab, line feed and
/// carriage return.
pub open spec fn is_control_byte(b: u8) -> bool {
    (0x01 <= b && b <= 0x08) || b == 0x0B || b == 0x0C || (0x0E <= b && b <= 0x1F) || b == 0x7F
}

/// How many bytes of `b` satisfy `p`.
pub open spec fn count_bytes(b: Seq<u8>, p: spec_fn(u8) -> bool) -> nat
    decreases b.len(),
{
    if b.len() == 0 {
        0
    } else {
        count_bytes(b.drop_last(), p) + if p(b.last()) {
            1nat
        } else {
            0nat
        }
    }
}

/// The NUL bytes of `b`.
pub open spec fn null_count(b: Seq<u8>) -> nat {
    count_bytes(b, |x: u8| x == 0)
}

/// The printable bytes of `b`.
pub open spec fn printable_count(b: Seq<u8>) -> nat {
    count_bytes(b, |x: u8| is_printable_byte(x))
}

/// The control bytes of `b`.
pub open spec fn control_count(b: Seq<u8>) -> nat {
    count_bytes(b, |x: u8| is_control_byte(x))
}

/// Whether `buffer` looks like text: it starts with a byte-order mark, or at most one
/// percent of it is NUL bytes, control bytes are at most half the printable ones, and it
/// is valid UTF-8 or more than three quarters of it is printable.
pub open spec fn spec_is_text(buffer: Seq<u8>) -> bool {
    buffer.len() > 0 && (spec_bom(buffer) is Some || (null_count(buffer) * 100 <= buffer.len()
        && control_count(buffer) <= printable_count(buffer) / 2 && (valid_utf8(buffer)
        || printable_count(buffer) * 100 > 75 * buffer.len())))
}

proof fn lemma_count_bound(b: Seq<u8>, p: spec_fn(u8) -> bool)
    ensures
        count_bytes(b, p) <= b.len(),
    decreases b.len(),
{
    if b.len() > 0 {
        lemma_count_bound(b.drop_last(), p);
    }
}

/// Whether `buffer` looks like text.
pub fn is_text_content(buffer: &[u8]) -> (r: bool)
    ensures
        r == spec_is_text(buffer@),
{
    if buffer.len() == 0 {
        return false;
    }
    if try_detect_bom(buffer).is_some() {
        return true;
    }
    let mut null_bytes: usize = 0;
    let mut control_chars: usize = 0;
    let mut printable_chars: usize = 0;
    for i in 0..buffer.len()
        invariant
            null_bytes == null_count(buffer@.take(i as int)),
            control_chars == control_count(buffer@.take(i as int)),
            printable_chars == printable_count(buffer@.take(i as int)),
            null_bytes <= i,
            control_chars <= i,
            printable_chars <= i,
    {
        let byte = buffer[i];
        let ghost t = buffer@.take(i + 1);
        assert(t.drop_last() =~= buffer@.take(i as int));
        assert(t.last() == byte);
        proof {
            lemma_count_bound(buffer@.take(i as int), |x: u8| x == 0);
        }
        if byte == 0 {
            null_bytes = null_bytes + 1;
        } else if byte == 0x09 || byte == 0x0A || byte == 0x0D || (0x20 <= byte && byte <= 0x7E) {
            printable_chars = printable_chars + 1;
        } else if (0x01 <= byte && byte <= 0x08) || byte == 0x0B || byte == 0x0C || (0x0E <= byte
            && byte <= 0x1F) || byte == 0x7F {
            control_chars = control_chars + 1;
        }
    }
    assert(buffer@.take(buffer.len() as int) =~= buffer@);
    let len = buffer.len();
    if null_bytes as u128 * 100 > len as u128 {
        return false;
    }
    if control_chars > printable_chars / 2 {
        return false;
    }
    if is_valid_utf8(buffer) {
        return true;
    }
    printable_chars as u128 * 100 > 75 * (len as u128)
}

/// Classifies the scanned bytes: unknown when empty, else text or binary.
pub open spec fn spec_detect_content_kind(buffer: Seq<u8>) -> ContentKind {
    if buffer.len() == 0 {
        ContentKind::Unknown
    } else if spec_is_text(buffer) {
        ContentKind::Text
    } else {
        ContentKind::Binary
    }
}

/// Classifies the scanned bytes: unknown when empty, else text or binary.
pub fn detect_content_kind(buffer: &[u8]) -> (r: ContentKind)
    ensures
        r == spec_detect_content_kind(buffer@),
{
    if buffer.len() == 0 {
        return ContentKind::Unknown;
    }
    if is_text_content(buffer) {
        ContentKind::Text
    } else {
        ContentKind::Binary
    }
}

/// Whether a MIME type names textual content.
pub open spec fn spec_mime_textual(mime: Seq<char>) -> bool {
    mime.len() >= 5 && mime.take(5) == "text/"@ || mime == "application/json"@ || mime
        == "application/xml"@ || (mime.len() >= 5 && mime.skip(mime.len() - 5) == "+json"@) || (
    mime.len() >= 4 && mime.skip(mime.len() - 4) == "+xml"@)
}

fn starts_with_text(v: &[char], prefix: &str) -> (r: bool)
    ensures
        r == (v@.len() >= prefix@.len() && v@.take(prefix@.len() as int) == prefix@),
{
    let p = chars_of(prefix);
    let r = chars_match_at(v, 0, p.as_slice());
    assert(v@.skip(0) =~= v@);
    r
}

fn ends_with_text(v: &[char], suffix: &str) -> (r: bool)
    ensures
        r == (v@.len() >= suffix@.len() && v@.skip(v@.len() - suffix@.len()) == suffix@),
{
    let p = chars_of(suffix);
    if v.len() < p.len() {
        return false;
    }
    let at = v.len() - p.len();
    let r = chars_match_at(v, at, p.as_slice());
    assert(v@.skip(at as int).take(p@.len() as int) =~= v@.skip(at as int));
    r
}

fn equals_text(v: &[char], text: &str) -> (r: bool)
    ensures
        r == (v@ == text@),
{
    let t = chars_of(text);
    chars_equal(v, t.as_slice())
}

/// Whether a MIME type names textual content.
pub fn mime_looks_textual(mime: &str) -> (r: bool)
    ensures
        r == spec_mime_textual(mime@),
{
    proof {
        reveal_strlit("text/");
        reveal_strlit("+json");
        reveal_strlit("+xml");
    }
    let m = chars_of(mime);
    let v = m.as_slice();
    starts_with_text(v, "text/") || equals_text(v, "application/json") || equals_text(
        v,
        "application/xml",
    ) || ends_with_text(v, "+json") || ends_with_text(v, "+xml")
}

/// The content kind of a report: from the top MIME type where there is one, else the
/// heuristic.
pub open spec fn spec_resolved_content_kind(heuristic: ContentKind, top_mime: Option<Seq<char>>) -> ContentKind {
    match top_mime {
        Some(m) => if spec_mime_textual(m) {
            ContentKind::Text
        } else {
            ContentKind::Binary
        },
        None => heuristic,
    }
}

/// The content kind of a report: from the top MIME type where there is one, else the
/// heuristic.
pub fn resolved_content_kind(heuristic_content_kind: ContentKind, top_mime_type: Option<&str>) -> (r: ContentKind)
    ensures
        r == spec_resolved_content_kind(
            heuristic_content_kind,
            match top_mime_type {
                Some(m) => Some(m@),
                None => None,
            },
        ),
{
    match top_mime_type {
        Some(mime) => if mime_looks_textual(mime) {
            ContentKind::Text
        } else {
            ContentKind::Binary
        },
        None => heuristic_content_kind,
    }
}

/// A top MIME type that starts with `text/`, ends with `+xml` or `+json`, or is
/// `application/json` or `application/xml` makes a report's content kind `Text`, whatever
/// the byte heuristic said; an `image/`, `audio/` or `video/` type without such a suffix
/// makes it `Binary`; any top MIME type gives `Text` or `Binary`; without a top MIME type the
/// heuristic stands.
pub proof fn lemma_top_mime_decides_content_kind(mime: Seq<char>, heuristic: ContentKind)
    ensures
        (mime.len() >= 4 && mime.skip(mime.len() - 4) == seq!['+', 'x', 'm', 'l'])
            ==> spec_resolved_content_kind(heuristic, Some(mime)) == ContentKind::Text,
        (mime.len() >= 5 && mime.skip(mime.len() - 5) == seq!['+', 'j', 's', 'o', 'n'])
            ==> spec_resolved_content_kind(heuristic, Some(mime)) == ContentKind::Text,
        (mime.len() >= 5 && mime.take(5) == seq!['t', 'e', 'x', 't', '/'])
            ==> spec_resolved_content_kind(heuristic, Some(mime)) == ContentKind::Text,
        spec_resolved_content_kind(heuristic, Some(mime)) == ContentKind::Text
            || spec_resolved_content_kind(heuristic, Some(mime)) == ContentKind::Binary,
        (mime.len() >= 6 && (mime.take(6) == seq!['i', 'm', 'a', 'g', 'e', '/'] || mime.take(6)
            == seq!['a', 'u', 'd', 'i', 'o', '/'] || mime.take(6) == seq!['v', 'i', 'd', 'e', 'o', '/'])
            && !(mime.len() >= 4 && mime.skip(mime.len() - 4) == seq!['+', 'x', 'm', 'l']) && !(
        mime.len() >= 5 && mime.skip(mime.len() - 5) == seq!['+', 'j', 's', 'o', 'n']))
            ==> spec_resolved_content_kind(heuristic, Some(mime)) == ContentKind::Binary,
        spec_resolved_content_kind(heuristic, None) == heuristic,
{
    reveal_strlit("+xml");
    reveal_strlit("+json");
    reveal_strlit("text/");
    reveal_strlit("application/json");
    reveal_strlit("application/xml");
    if mime.len() >= 6 {
        if mime.len() >= 5 {
            assert(mime.take(5) =~= mime.take(6).take(5));
        }
        assert(mime.take(6) =~= mime.subrange(0, 6));
        if mime == "application/json"@ || mime == "application/xml"@ {
            assert(mime[0] == 'a' && mime[1] == 'p');
        }
    }
    assert("+xml"@ =~= seq!['+', 'x', 'm', 'l']);
    assert("+json"@ =~= seq!['+', 'j', 's', 'o', 'n']);
    assert("text/"@ =~= seq!['t', 'e', 'x', 't', '/']);
}

/// Every buffer that starts with a UTF-8, UTF-16 or UTF-32 byte-order mark is classified as
/// text, however many NUL or control bytes follow the mark.
pub proof fn lemma_bom_buffers_are_text(b: Seq<u8>)
    requires
        (b.len() >= 3 && b[0] == 0xEF && b[1] == 0xBB && b[2] == 0xBF) || (b.len() >= 2 && b[0]
            == 0xFF && b[1] == 0xFE) || (b.len() >= 2 && b[0] == 0xFE && b[1] == 0xFF) || (b.len()
            >= 4 && b[0] == 0x00 && b[1] == 0x00 && b[2] == 0xFE && b[3] == 0xFF),
    ensures
        spec_is_text(b),
        spec_detect_content_kind(b) == ContentKind::Text,
{
}

/// The weight of a matched pattern: its length, a thousand-fold at offset zero and a
/// hundred-fold elsewhere.
pub open spec fn pattern_weight(p: PatternView) -> int {
    p.data.len() * (if p.position == 0 { 1000int } else { 100int })
}

/// The summed weight of patterns.
pub open spec fn patterns_weight(ps: Seq<PatternView>) -> int
    decreases ps.len(),
{
    if ps.len() == 0 {
        0
    } else {
        patterns_weight(ps.drop_last()) + pattern_weight(ps.last())
    }
}

/// Whether every pattern occurs in `header` at its offset.
pub open spec fn patterns_match(ps: Seq<PatternView>, header: Seq<u8>) -> bool {
    forall|j: int|
        0 <= j < ps.len() ==> spec_matches_pattern(header, (#[trigger] ps[j]).position as int, ps[j].data)
}

/// The summed weight of strings: ten per byte.
pub open spec fn strings_weight(ss: Seq<Seq<u8>>) -> int
    decreases ss.len(),
{
    if ss.len() == 0 {
        0
    } else {
        strings_weight(ss.drop_last()) + ss.last().len() * 10
    }
}

/// Whether every string occurs somewhere in `content`.
pub open spec fn strings_found(ss: Seq<Seq<u8>>, content: Seq<u8>) -> bool {
    forall|k: int| 0 <= k < ss.len() ==> spec_contains_sequence(content, #[trigger] ss[k])
}

/// Whether scoring `r` reads the whole content: its patterns all match the header with a
/// positive weight and it has strings to look for.
pub open spec fn needs_content(r: RecordView, header: Seq<u8>) -> bool {
    patterns_match(r.signature.patterns, header) && patterns_weight(r.signature.patterns) > 0
        && r.signature.strings.len() > 0
}

/// The score of a definition: zero unless every pattern matches the header with a positive
/// weight; then the pattern weight, plus the string weight when the definition has strings,
/// which must all occur in the content (else zero).
pub open spec fn spec_score(r: RecordView, header: Seq<u8>, content: Seq<u8>) -> int {
    let ps = r.signature.patterns;
    let ss = r.signature.strings;
    if !patterns_match(ps, header) || patterns_weight(ps) == 0 {
        0
    } else if ss.len() == 0 {
        patterns_weight(ps)
    } else if strings_found(ss, content) {
        patterns_weight(ps) + strings_weight(ss)
    } else {
        0
    }
}

/// `x` capped at the largest `u64`.
pub open spec fn saturate(x: int) -> u64 {
    if x > u64::MAX {
        u64::MAX
    } else {
        x as u64
    }
}

/// The content handed to scoring, empty where none was read.
pub open spec fn content_view(content: Option<&[u8]>) -> Seq<u8> {
    match content {
        Some(c) => c@,
        None => Seq::empty(),
    }
}

proof fn lemma_weights_nonneg(ps: Seq<PatternView>, ss: Seq<Seq<u8>>)
    ensures
        patterns_weight(ps) >= 0,
        strings_weight(ss) >= 0,
    decreases ps.len() + ss.len(),
{
    if ps.len() > 0 {
        lemma_weights_nonneg(ps.drop_last(), ss);
    } else if ss.len() > 0 {
        lemma_weights_nonneg(ps, ss.drop_last());
    }
}

fn saturating_weight(len: usize, factor: u64) -> (w: u64)
    ensures
        w == saturate(len * factor),
{
    match (len as u64).checked_mul(factor) {
        Some(v) => v,
        None => u64::MAX,
    }
}

/// The score of `definition` for the scanned `header`, capped at the largest `u64`;
/// `content` is the whole file, read only when the definition has strings to look for.
pub fn score_definition(definition: &DefinitionRecord, header: &[u8], content: Option<&[u8]>) -> (r: u64)
    requires
        needs_content(definition@, header@) ==> content is Some,
    ensures
        r == saturate(spec_score(definition@, header@, content_view(content))),
{
    let patterns = &definition.signature.patterns;
    let ghost ps = definition@.signature.patterns;
    let mut score: u64 = 0;
    assert(ps == patterns_view(patterns@));
    assert(ps.len() == patterns.len());
    for j in 0..patterns.len()
        invariant
            ps == definition@.signature.patterns,
            ps == patterns_view(patterns@),
            ps.len() == patterns.len(),
            score == saturate(patterns_weight(ps.take(j as int))),
            patterns_match(ps.take(j as int), header@),
    {
        let pattern = &patterns[j];
        assert(ps[j as int] == pattern@);
        let position = pattern.position as usize;
        if !matches_pattern(header, position, pattern.data.as_slice()) {
            proof {
                assert(!spec_matches_pattern(header@, ps[j as int].position as int, ps[j as int].data));
            }
            return 0;
        }
        let factor: u64 = if position == 0 { 1000 } else { 100 };
        let w = saturating_weight(pattern.data.len(), factor);
        let ghost prev = patterns_weight(ps.take(j as int));
        proof {
            lemma_weights_nonneg(ps.take(j as int), Seq::empty());
            assert(ps.take(j + 1).drop_last() =~= ps.take(j as int));
            assert(ps.take(j + 1).last() == ps[j as int]);
            assert forall|jj: int| 0 <= jj < j + 1 implies spec_matches_pattern(
                header@,
                (#[trigger] ps.take(j + 1)[jj]).position as int,
                ps.take(j + 1)[jj].data,
            ) by {
                if jj < j {
                    assert(ps.take(j + 1)[jj] == ps.take(j as int)[jj]);
                }
            }
        }
        score = score.saturating_add(w);
    }
    assert(ps.take(patterns.len() as int) =~= ps);
    proof {
        lemma_weights_nonneg(ps, Seq::empty());
    }
    if score == 0 {
        return 0;
    }
    let strings = &definition.signature.strings;
    let ghost ss = definition@.signature.strings;
    assert(ss == strings@.map_values(|s: Vec<u8>| s@));
    assert(ss.len() == strings.len());
    proof {
        lemma_weights_nonneg(ps, ss);
        assert(strings_weight(ss.take(0)) == 0);
        assert(patterns_weight(ps) + strings_weight(ss.take(0)) == patterns_weight(ps));
    }
    if strings.len() == 0 {
        return score;
    }
    assert(patterns_weight(ps) > 0);
    assert(needs_content(definition@, header@));
    let empty: &[u8] = &[];
    let buffer: &[u8] = match content {
        Some(c) => c,
        None => empty,
    };
    for k in 0..strings.len()
        invariant
            ss == definition@.signature.strings,
            ss == strings@.map_values(|s: Vec<u8>| s@),
            ss.len() == strings.len(),
            buffer@ == content_view(content),
            patterns_weight(ps) > 0,
            patterns_match(ps, header@),
            ps == definition@.signature.patterns,
            score == saturate(patterns_weight(ps) + strings_weight(ss.take(k as int))),
            strings_found(ss.take(k as int), buffer@),
    {
        let needle = &strings[k];
        assert(ss[k as int] == needle@);
        if !contains_sequence(buffer, needle.as_slice()) {
            return 0;
        }
        let w = saturating_weight(needle.len(), 10);
        proof {
            lemma_weights_nonneg(ps, ss.take(k as int));
            assert(ss.take(k + 1).drop_last() =~= ss.take(k as int));
            assert(ss.take(k + 1).last() == ss[k as int]);
            assert forall|kk: int| 0 <= kk < k + 1 implies spec_contains_sequence(
                buffer@,
                #[trigger] ss.take(k + 1)[kk],
            ) by {
                if kk < k {
                    assert(ss.take(k + 1)[kk] == ss.take(k as int)[kk]);
                }
            }
        }
        score = score.saturating_add(w);
    }
    assert(ss.take(strings.len() as int) =~= ss);
    score
}

/// Whether some candidate of `header` needs the whole content to be scored.
pub open spec fn spec_needs_full_contents(defs: Seq<RecordView>, header: Seq<u8>) -> bool {
    exists|i: int| is_candidate(defs, header, i) && needs_content(#[trigger] defs[i], header)
}

/// Whether some candidate of `header` needs the whole content to be scored.
pub fn needs_full_contents(db: &DefinitionDatabase, header: &[u8]) -> (r: bool)
    ensures
        r == spec_needs_full_contents(db@, header@),
{
    let candidates = db.candidate_indices(header);
    for c in 0..candidates.len()
        invariant
            db@.len() <= usize::MAX,
            forall|i: int| 0 <= i < candidates.len() ==> is_candidate(db@, header@, #[trigger] candidates[i] as int),
            forall|idx: int| is_candidate(db@, header@, idx) ==> candidates@.contains(idx as usize),
            forall|c2: int| 0 <= c2 < c ==> !needs_content(db@[#[trigger] candidates[c2] as int], header@),
    {
        let idx = candidates[c];
        assert(is_candidate(db@, header@, idx as int));
        if definition_needs_content(db.definition(idx), header) {
            return true;
        }
    }
    proof {
        assert forall|i: int| is_candidate(db@, header@, i) implies !needs_content(#[trigger] db@[i], header@) by {
            let c2 = choose|c2: int| 0 <= c2 < candidates.len() && candidates@[c2] == i as usize;
            assert(!needs_content(db@[candidates[c2] as int], header@));
        }
    }
    false
}

fn definition_needs_content(definition: &DefinitionRecord, header: &[u8]) -> (r: bool)
    ensures
        r == needs_content(definition@, header@),
{
    if definition.signature.strings.len() == 0 {
        return false;
    }
    let patterns = &definition.signature.patterns;
    let ghost ps = definition@.signature.patterns;
    assert(ps == patterns_view(patterns@));
    assert(ps.len() == patterns.len());
    let mut any_weight = false;
    for j in 0..patterns.len()
        invariant
            ps == definition@.signature.patterns,
            ps == patterns_view(patterns@),
            ps.len() == patterns.len(),
            patterns_match(ps.take(j as int), header@),
            any_weight == (patterns_weight(ps.take(j as int)) > 0),
    {
        let pattern = &patterns[j];
        assert(ps[j as int] == pattern@);
        if !matches_pattern(header, pattern.position as usize, pattern.data.as_slice()) {
            return false;
        }
        proof {
            lemma_weights_nonneg(ps.take(j as int), Seq::empty());
            assert(ps.take(j + 1).drop_last() =~= ps.take(j as int));
            assert(ps.take(j + 1).last() == ps[j as int]);
            assert forall|jj: int| 0 <= jj < j + 1 implies spec_matches_pattern(
                header@,
                (#[trigger] ps.take(j + 1)[jj]).position as int,
                ps.take(j + 1)[jj].data,
            ) by {
                if jj < j {
                    assert(ps.take(j + 1)[jj] == ps.take(j as int)[jj]);
                }
            }
        }
        if pattern.data.len() > 0 {
            any_weight = true;
        }
    }
    assert(ps.take(patterns.len() as int) =~= ps);
    any_weight
}

/// A ranked match: the labels of a definition (or of the fallback) with its score.
#[derive(Debug)]
pub struct MatchedDefinition {
    /// Human-friendly file type label.
    pub file_type_label: String,
    /// MIME type of the match.
    pub mime_type: String,
    /// Candidate filename extensions, normalized without leading dots.
    pub extensions: Vec<String>,
    /// Priority hint used to break ties between equal scores.
    pub priority_level: i32,
    /// The match's score.
    pub score: u64,
}

/// A ranked match as values.
pub struct MatchView {
    pub file_type_label: Seq<char>,
    pub mime_type: Seq<char>,
    pub extensions: Seq<Seq<char>>,
    pub priority_level: i32,
    pub score: u64,
}

impl View for MatchedDefinition {
    type V = MatchView;

    open spec fn view(&self) -> MatchView {
        MatchView {
            file_type_label: self.file_type_label@,
            mime_type: self.mime_type@,
            extensions: self.extensions@.map_values(|s: String| s@),
            priority_level: self.priority_level,
            score: self.score,
        }
    }
}

/// The values of a sequence of matches.
pub open spec fn matches_view(ms: Seq<MatchedDefinition>) -> Seq<MatchView> {
    ms.map_values(|m: MatchedDefinition| m@)
}

/// The match a definition gives with `score`.
pub open spec fn spec_from_record(r: RecordView, score: u64) -> MatchView {
    MatchView {
        file_type_label: r.file_type,
        mime_type: r.mime_type,
        extensions: spec_normalize_extensions(r.extensions),
        priority_level: r.priority_level,
        score,
    }
}

/// The match reported when no definition scores: labels by content kind, the source
/// extension when there is a non-empty one (else `txt` or `bin`), priority -1000, score 100.
pub open spec fn spec_fallback(source_extension: Option<Seq<char>>, kind: ContentKind) -> MatchView {
    let label = match kind {
        ContentKind::Text => "Plain Text"@,
        ContentKind::Binary => "Binary Data"@,
        ContentKind::Unknown => "Unknown"@,
    };
    let mime = match kind {
        ContentKind::Text => "text/plain"@,
        _ => "application/octet-stream"@,
    };
    let default_extension = match kind {
        ContentKind::Text => "txt"@,
        _ => "bin"@,
    };
    let extension = match source_extension {
        Some(e) => if e.len() > 0 {
            e
        } else {
            default_extension
        },
        None => default_extension,
    };
    MatchView {
        file_type_label: label,
        mime_type: mime,
        extensions: seq![extension],
        priority_level: -1000i32,
        score: 100u64,
    }
}

impl MatchedDefinition {
    /// The match a definition gives with `score`.
    pub fn from_legacy(definition: &DefinitionRecord, score: u64) -> (r: MatchedDefinition)
        ensures
            r@ == spec_from_record(definition@, score),
    {
        MatchedDefinition {
            file_type_label: definition.file_type.clone(),
            mime_type: definition.mime_type.clone(),
            extensions: normalize_extensions(definition.extensions.as_slice()),
            priority_level: definition.priority_level,
            score,
        }
    }

    /// The match reported when no definition scores.
    pub fn fallback(source_extension: Option<&str>, content_kind: ContentKind) -> (r: MatchedDefinition)
        ensures
            r@ == spec_fallback(
                match source_extension {
                    Some(e) => Some(e@),
                    None => None,
                },
                content_kind,
            ),
    {
        let (file_type_label, mime_type, default_extension) = match content_kind {
            ContentKind::Text => ("Plain Text", "text/plain", "txt"),
            ContentKind::Binary => ("Binary Data", "application/octet-stream", "bin"),
            ContentKind::Unknown => ("Unknown", "application/octet-stream", "bin"),
        };
        let extension = match source_extension {
            Some(e) => if !e.is_empty() {
                e.to_owned()
            } else {
                default_extension.to_owned()
            },
            None => default_extension.to_owned(),
        };
        let mut extensions: Vec<String> = Vec::new();
        extensions.push(extension);
        let r = MatchedDefinition {
            file_type_label: file_type_label.to_owned(),
            mime_type: mime_type.to_owned(),
            extensions,
            priority_level: -1000,
            score: 100,
        };
        assert(r@.extensions =~= seq![extensions@[0]@]);
        r
    }
}

/// Whether match `a` ranks strictly before match `b`: higher score, then higher priority,
/// then the smaller label, then the smaller MIME type.
pub open spec fn spec_ranks_before(a: MatchView, b: MatchView) -> bool {
    a.score > b.score || (a.score == b.score && (a.priority_level > b.priority_level || (
    a.priority_level == b.priority_level && (lex_lt(a.file_type_label, b.file_type_label) || (
    a.file_type_label == b.file_type_label && lex_lt(a.mime_type, b.mime_type))))))
}

/// Whether two matches tie on every ranking key.
pub open spec fn same_rank(a: MatchView, b: MatchView) -> bool {
    a.score == b.score && a.priority_level == b.priority_level && a.file_type_label
        == b.file_type_label && a.mime_type == b.mime_type
}

/// Ranking is a strict weak order whose ties are exactly the matches equal on every key.
pub proof fn lemma_rank_order(a: MatchView, b: MatchView, c: MatchView)
    ensures
        !spec_ranks_before(a, a),
        spec_ranks_before(a, b) ==> !spec_ranks_before(b, a),
        spec_ranks_before(a, b) && spec_ranks_before(b, c) ==> spec_ranks_before(a, c),
        !spec_ranks_before(a, b) && !spec_ranks_before(b, a) <==> same_rank(a, b),
        spec_ranks_before(a, b) && same_rank(b, c) ==> spec_ranks_before(a, c),
        same_rank(a, b) && spec_ranks_before(b, c) ==> spec_ranks_before(a, c),
{
    lemma_lex_order(a.file_type_label, b.file_type_label, c.file_type_label);
    lemma_lex_order(a.mime_type, b.mime_type, c.mime_type);
    lemma_lex_order(b.file_type_label, a.file_type_label, c.file_type_label);
    lemma_lex_order(b.mime_type, a.mime_type, c.mime_type);
}

/// Whether match `a` ranks strictly before match `b`.
pub fn ranks_before(a: &MatchedDefinition, b: &MatchedDefinition) -> (r: bool)
    ensures
        r == spec_ranks_before(a@, b@),
{
    if a.score != b.score {
        return a.score > b.score;
    }
    if a.priority_level != b.priority_level {
        return a.priority_level > b.priority_level;
    }
    let la = chars_of(a.file_type_label.as_str());
    let lb = chars_of(b.file_type_label.as_str());
    if !chars_equal(la.as_slice(), lb.as_slice()) {
        return chars_less(la.as_slice(), lb.as_slice());
    }
    proof {
        lemma_lex_order(la@, la@, la@);
    }
    let ma = chars_of(a.mime_type.as_str());
    let mb = chars_of(b.mime_type.as_str());
    chars_less(ma.as_slice(), mb.as_slice())
}

/// `out` is `input` sorted by rank, stably: a permutation `perm` of the input positions
/// places each output element, no element ranks before one placed earlier, and tied elements
/// keep their input order.
pub open spec fn is_stable_ranking(input: Seq<MatchView>, out: Seq<MatchView>, perm: Seq<int>) -> bool {
    &&& out.len() == input.len()
    &&& perm.len() == input.len()
    &&& forall|k: int| 0 <= k < perm.len() ==> 0 <= #[trigger] perm[k] < input.len() && out[k]
        == input[perm[k]]
    &&& forall|a: int, b: int| 0 <= a < b < perm.len() ==> perm[a] != perm[b]
    &&& forall|a: int, b: int|
        0 <= a < b < out.len() ==> !spec_ranks_before(#[trigger] out[b], #[trigger] out[a])
    &&& forall|a: int, b: int|
        0 <= a < b < out.len() && same_rank(#[trigger] out[a], #[trigger] out[b]) ==> perm[a]
            < perm[b]
}

/// Sorts matches by rank, keeping tied matches in their input order.
pub fn sort_matches(input: Vec<MatchedDefinition>) -> (r: Vec<MatchedDefinition>)
    ensures
        exists|perm: Seq<int>| is_stable_ranking(matches_view(input@), matches_view(r@), perm),
{
    let ghost iv = matches_view(input@);
    let mut rest = input;
    let mut out: Vec<MatchedDefinition> = Vec::new();
    let ghost mut perm: Seq<int> = Seq::empty();
    let mut taken: usize = 0;
    let total = rest.len();
    while rest.len() > 0
        invariant
            total == iv.len(),
            taken + rest@.len() == total,
            matches_view(rest@) == iv.skip(taken as int),
            is_stable_ranking(iv.take(taken as int), matches_view(out@), perm),
        decreases rest@.len(),
    {
        let ghost ov = matches_view(out@);
        let ghost old_rest = rest@;
        let item = rest.remove(0);
        proof {
            assert(item@ == iv[taken as int]) by {
                assert(matches_view(old_rest)[0] == iv.skip(taken as int)[0]);
            }
            assert(matches_view(rest@) =~= iv.skip(taken + 1)) by {
                assert forall|k: int| 0 <= k < rest@.len() implies matches_view(rest@)[k]
                    == iv.skip(taken + 1)[k] by {
                    assert(rest@[k] == old_rest[k + 1]);
                    assert(matches_view(old_rest)[k + 1] == iv.skip(taken as int)[k + 1]);
                }
            }
        }
        let mut k: usize = 0;
        while k < out.len() && !ranks_before(&item, &out[k])
            invariant
                k <= out.len(),
                ov == matches_view(out@),
                forall|j: int| 0 <= j < k ==> !spec_ranks_before(item@, #[trigger] ov[j]),
            decreases out.len() - k,
        {
            k = k + 1;
        }
        let ghost iview = item@;
        out.insert(k, item);
        proof {
            let ghost nv = matches_view(out@);
            let ghost pn = perm.take(k as int).push(taken as int) + perm.skip(k as int);
            let ghost inp = iv.take(taken + 1);
            assert(iv.take(taken as int) =~= inp.take(taken as int));
            assert(nv =~= ov.take(k as int).push(iview) + ov.skip(k as int));
            // every element after the insertion point ranks after the new one
            assert forall|j: int| k <= j < ov.len() implies spec_ranks_before(iview, #[trigger] ov[j]) by {
                assert(spec_ranks_before(iview, ov[k as int]));
                if j > k {
                    assert(!spec_ranks_before(ov[j], ov[k as int]));
                    lemma_rank_order(iview, ov[k as int], ov[j]);
                    lemma_rank_order(ov[k as int], ov[j], ov[j]);
                }
            }
            assert forall|q: int| 0 <= q < pn.len() implies 0 <= #[trigger] pn[q] < inp.len() && nv[q]
                == inp[pn[q]] by {
                if q < k {
                    assert(pn[q] == perm[q]);
                } else if q == k {
                    assert(pn[q] == taken);
                } else {
                    assert(pn[q] == perm[q - 1]);
                }
            }
            assert forall|a: int, b: int| 0 <= a < b < pn.len() implies pn[a] != pn[b] by {
                if a < k && b < k {
                } else if a < k && b == k {
                    assert(pn[a] == perm[a]);
                } else if a < k {
                    assert(pn[a] == perm[a] && pn[b] == perm[b - 1]);
                } else if a == k {
                    assert(pn[b] == perm[b - 1]);
                } else {
                    assert(pn[a] == perm[a - 1] && pn[b] == perm[b - 1]);
                }
            }
            assert forall|a: int, b: int| 0 <= a < b < nv.len() implies !spec_ranks_before(
                #[trigger] nv[b],
                #[trigger] nv[a],
            ) by {
                lemma_rank_order(nv[a], nv[b], nv[b]);
                if a < k && b == k {
                    assert(!spec_ranks_before(iview, ov[a]));
                } else if a == k && b > k {
                    assert(spec_ranks_before(iview, ov[b - 1]));
                    lemma_rank_order(iview, ov[b - 1], ov[b - 1]);
                } else if a < k && b > k {
                    assert(nv[a] == ov[a] && nv[b] == ov[b - 1]);
                } else if a > k {
                    assert(nv[a] == ov[a - 1] && nv[b] == ov[b - 1]);
                }
            }
            assert forall|a: int, b: int|
                0 <= a < b < nv.len() && same_rank(#[trigger] nv[a], #[trigger] nv[b]) implies pn[a]
                < pn[b] by {
                if a < k && b == k {
                    assert(pn[a] == perm[a]);
                } else if a == k && b > k {
                    assert(spec_ranks_before(iview, ov[b - 1]));
                    lemma_rank_order(iview, ov[b - 1], ov[b - 1]);
                } else if a < k && b > k {
                    assert(nv[a] == ov[a] && nv[b] == ov[b - 1]);
                    assert(pn[a] == perm[a] && pn[b] == perm[b - 1]);
                } else if a > k {
                    assert(nv[a] == ov[a - 1] && nv[b] == ov[b - 1]);
                    assert(pn[a] == perm[a - 1] && pn[b] == perm[b - 1]);
                }
            }
            perm = pn;
        }
        taken = taken + 1;
    }
    assert(iv.take(taken as int) =~= iv);
    out
}

/// The matches of the definitions with index below `k` that are candidates for `header`
/// and score above zero, in index order.
pub open spec fn scored_upto(defs: Seq<RecordView>, header: Seq<u8>, content: Seq<u8>, k: int) -> Seq<MatchView>
    decreases k,
{
    if k <= 0 {
        Seq::empty()
    } else {
        let rest = scored_upto(defs, header, content, k - 1);
        let i = k - 1;
        if is_candidate(defs, header, i) && spec_score(defs[i], header, content) > 0 {
            rest.push(spec_from_record(defs[i], saturate(spec_score(defs[i], header, content))))
        } else {
            rest
        }
    }
}

proof fn lemma_scored_skip(defs: Seq<RecordView>, header: Seq<u8>, content: Seq<u8>, a: int, b: int)
    requires
        0 <= a <= b,
        forall|i: int|
            a <= i < b ==> !(#[trigger] is_candidate(defs, header, i) && spec_score(defs[i], header, content) > 0),
    ensures
        scored_upto(defs, header, content, b) == scored_upto(defs, header, content, a),
    decreases b - a,
{
    if b > a {
        lemma_scored_skip(defs, header, content, a, b - 1);
    }
}

/// The matches of the candidates of `header` that score above zero, in definition order.
pub fn scored_matches(db: &DefinitionDatabase, header: &[u8], content: Option<&[u8]>) -> (r: Vec<MatchedDefinition>)
    requires
        spec_needs_full_contents(db@, header@) ==> content is Some,
    ensures
        matches_view(r@) == scored_upto(db@, header@, content_view(content), db@.len() as int),
{
    let ghost defs = db@;
    let ghost cv = content_view(content);
    let candidates = db.candidate_indices(header);
    let mut out: Vec<MatchedDefinition> = Vec::new();
    let ghost mut bound: int = 0;
    for c in 0..candidates.len()
        invariant
            defs == db@,
            cv == content_view(content),
            defs.len() <= usize::MAX,
            spec_needs_full_contents(defs, header@) ==> content is Some,
            forall|i: int, j: int| 0 <= i < j < candidates.len() ==> candidates[i] < candidates[j],
            forall|i: int| 0 <= i < candidates.len() ==> is_candidate(defs, header@, #[trigger] candidates[i] as int),
            forall|idx: int| is_candidate(defs, header@, idx) ==> candidates@.contains(idx as usize),
            0 <= bound <= defs.len(),
            c == 0 ==> bound == 0,
            c > 0 ==> bound == candidates[c - 1] + 1,
            matches_view(out@) == scored_upto(defs, header@, cv, bound),
    {
        let idx = candidates[c];
        proof {
            assert forall|i: int| bound <= i < idx implies !(#[trigger] is_candidate(defs, header@, i)
                && spec_score(defs[i], header@, cv) > 0) by {
                if is_candidate(defs, header@, i) {
                    let c2 = choose|c2: int| 0 <= c2 < candidates.len() && candidates@[c2] == i as usize;
                    if c2 < c {
                        if c2 < c - 1 {
                            assert(candidates[c2] < candidates[c - 1]);
                        }
                    } else if c2 > c {
                        assert(candidates[c as int] < candidates[c2]);
                    }
                }
            }
            lemma_scored_skip(defs, header@, cv, bound, idx as int);
        }
        let definition = db.definition(idx);
        assert(is_candidate(defs, header@, idx as int));
        let score = score_definition(definition, header, content);
        proof {
            lemma_weights_nonneg(defs[idx as int].signature.patterns, defs[idx as int].signature.strings);
            assert(scored_upto(defs, header@, cv, bound) == scored_upto(defs, header@, cv, idx as int));
        }
        let ghost prev = out@;
        if score != 0 {
            out.push(MatchedDefinition::from_legacy(definition, score));
            proof {
                assert(matches_view(out@) =~= matches_view(prev).push(out@.last()@));
            }
        }
        proof {
            bound = idx + 1;
        }
    }
    proof {
        assert forall|i: int| bound <= i < defs.len() implies !(#[trigger] is_candidate(defs, header@, i)
            && spec_score(defs[i], header@, cv) > 0) by {
            if is_candidate(defs, header@, i) {
                let c2 = choose|c2: int| 0 <= c2 < candidates.len() && candidates@[c2] == i as usize;
                if c2 < candidates.len() - 1 {
                    assert(candidates[c2] < candidates[candidates.len() - 1]);
                }
            }
        }
        lemma_scored_skip(defs, header@, cv, bound, defs.len() as int);
    }
    out
}

/// The summed score of the pairs with `key`.
pub open spec fn key_total(pairs: Seq<(Seq<char>, u64)>, key: Seq<char>) -> int
    decreases pairs.len(),
{
    if pairs.len() == 0 {
        0
    } else {
        key_total(pairs.drop_last(), key) + if pairs.last().0 == key {
            pairs.last().1 as int
        } else {
            0
        }
    }
}

/// Whether some pair has `key`.
pub open spec fn has_key(pairs: Seq<(Seq<char>, u64)>, key: Seq<char>) -> bool {
    exists|i: int| 0 <= i < pairs.len() && (#[trigger] pairs[i]).0 == key
}

/// Whether `v` is the top value of the pairs: a key whose summed score no other key
/// exceeds, and the smallest such key.
pub open spec fn is_top_value(pairs: Seq<(Seq<char>, u64)>, v: Seq<char>) -> bool {
    has_key(pairs, v) && forall|w: Seq<char>|
        #[trigger] has_key(pairs, w) ==> key_total(pairs, w) < key_total(pairs, v) || (key_total(
            pairs,
            w,
        ) == key_total(pairs, v) && (w == v || lex_lt(v, w)))
}

/// The values of pairs of characters and scores.
pub open spec fn pairs_view(pairs: Seq<(Vec<char>, u64)>) -> Seq<(Seq<char>, u64)> {
    pairs.map_values(|p: (Vec<char>, u64)| (p.0@, p.1))
}

proof fn lemma_key_total_bound(pairs: Seq<(Seq<char>, u64)>, key: Seq<char>)
    ensures
        0 <= key_total(pairs, key) <= pairs.len() * (u64::MAX as int),
    decreases pairs.len(),
{
    if pairs.len() > 0 {
        lemma_key_total_bound(pairs.drop_last(), key);
    }
}

proof fn lemma_key_total_absent(pairs: Seq<(Seq<char>, u64)>, key: Seq<char>)
    requires
        !has_key(pairs, key),
    ensures
        key_total(pairs, key) == 0,
    decreases pairs.len(),
{
    if pairs.len() > 0 {
        assert(!has_key(pairs.drop_last(), key)) by {
            if has_key(pairs.drop_last(), key) {
                let i = choose|i: int| 0 <= i < pairs.drop_last().len() && (#[trigger] pairs.drop_last()[i]).0 == key;
                assert(pairs[i] == pairs.drop_last()[i]);
            }
        }
        assert(pairs.last() == pairs[pairs.len() - 1]);
        lemma_key_total_absent(pairs.drop_last(), key);
    }
}

/// The key with the highest summed score, the smallest such key on a tie, or `None` when
/// there are no pairs.
pub fn aggregate_top_value(pairs: &[(Vec<char>, u64)]) -> (r: Option<String>)
    ensures
        match r {
            Some(v) => is_top_value(pairs_view(pairs@), v@),
            None => pairs@.len() == 0,
        },
{
    let ghost pv = pairs_view(pairs@);
    let mut keys: Vec<Vec<char>> = Vec::new();
    let mut totals: Vec<u128> = Vec::new();
    let n = pairs.len();
    let mut i: usize = 0;
    while i < n
        invariant
            i <= n,
            n == pairs@.len(),
            pv == pairs_view(pairs@),
            keys.len() == totals.len(),
            keys.len() <= i,
            forall|a: int, b: int| 0 <= a < b < keys.len() ==> (#[trigger] keys[a])@ != (#[trigger] keys[b])@,
            forall|k: int|
                0 <= k < keys.len() ==> has_key(pv.take(i as int), (#[trigger] keys[k])@) && totals[k]
                    == key_total(pv.take(i as int), keys[k]@),
            forall|w: Seq<char>|
                #[trigger] has_key(pv.take(i as int), w) ==> exists|k: int| 0 <= k < keys.len() && (#[trigger] keys@[k])@ == w,
        decreases n - i,
    {
        let ghost pre = pv.take(i as int);
        let ghost post = pv.take(i + 1);
        let key = &pairs[i].0;
        let score = pairs[i].1;
        proof {
            assert(post.drop_last() =~= pre);
            assert(post.last() == pv[i as int]);
            assert(pv[i as int] == (key@, score));
            assert forall|w: Seq<char>| has_key(pre, w) implies #[trigger] has_key(post, w) by {
                let j = choose|j: int| 0 <= j < pre.len() && (#[trigger] pre[j]).0 == w;
                assert(post[j] == pre[j]);
            }
            assert(has_key(post, key@)) by {
                assert(post[i as int].0 == key@);
            }
            assert forall|w: Seq<char>| #[trigger] has_key(post, w) implies has_key(pre, w) || w == key@ by {
                let j = choose|j: int| 0 <= j < post.len() && (#[trigger] post[j]).0 == w;
                if j < i {
                    assert(pre[j] == post[j]);
                }
            }
        }
        let mut found: usize = keys.len();
        let mut k: usize = 0;
        while k < keys.len()
            invariant
                k <= keys.len(),
                found == keys.len() || (found < keys.len() && keys@[found as int]@ == key@),
                found == keys.len() ==> forall|j: int| 0 <= j < k ==> (#[trigger] keys@[j])@ != key@,
            decreases keys.len() - k,
        {
            if found == keys.len() && chars_equal(keys[k].as_slice(), key.as_slice()) {
                found = k;
            }
            k = k + 1;
        }
        proof {
            lemma_key_total_bound(pre, key@);
            assert(pre.len() == i);
            assert((i as int) * (u64::MAX as int) <= (usize::MAX as int) * (u64::MAX as int)) by (nonlinear_arith)
                requires i <= usize::MAX;
            assert((usize::MAX as int) * (u64::MAX as int) + (u64::MAX as int) <= u128::MAX) by (nonlinear_arith)
                requires usize::MAX <= u64::MAX;
        }
        if found < keys.len() {
            let t = totals[found] + score as u128;
            totals.set(found, t);
            proof {
                assert forall|kk: int| 0 <= kk < keys.len() implies has_key(post, (#[trigger] keys[kk])@)
                    && totals[kk] == key_total(post, keys[kk]@) by {
                    assert(has_key(post, keys[kk]@));
                }
                assert forall|w: Seq<char>| #[trigger] has_key(post, w) implies exists|kk: int|
                    0 <= kk < keys.len() && (#[trigger] keys@[kk])@ == w by {
                    if w == key@ {
                        assert(keys@[found as int]@ == w);
                    } else {
                        assert(has_key(pre, w));
                    }
                }
            }
        } else {
            proof {
                assert(!has_key(pre, key@));
                lemma_key_total_absent(pre, key@);
            }
            let ghost old_keys = keys@;
            keys.push(copy_char_vec(key));
            totals.push(score as u128);
            proof {
                assert forall|kk: int| 0 <= kk < keys.len() implies has_key(post, (#[trigger] keys[kk])@)
                    && totals[kk] == key_total(post, keys[kk]@) by {
                    if kk < keys.len() - 1 {
                        assert(has_key(post, keys[kk]@));
                    }
                }
                assert forall|w: Seq<char>| #[trigger] has_key(post, w) implies exists|kk: int|
                    0 <= kk < keys.len() && (#[trigger] keys@[kk])@ == w by {
                    if w == key@ {
                        assert(keys@[keys.len() - 1]@ == w);
                    } else {
                        assert(has_key(pre, w));
                        let kk = choose|kk: int| 0 <= kk < keys.len() - 1 && (#[trigger] old_keys[kk])@ == w;
                        assert(keys@[kk]@ == w);
                    }
                }
            }
        }
        i = i + 1;
    }
    assert(pv.take(n as int) =~= pv);
    if keys.len() == 0 {
        proof {
            if pv.len() > 0 {
                assert(pv.take(n as int)[0] == pv[0]);
                assert(has_key(pv.take(n as int), pv[0].0));
            }
        }
        return None;
    }
    let mut best: usize = 0;
    for k in 1..keys.len()
        invariant
            keys.len() == totals.len(),
            best < k <= keys.len(),
            forall|a: int, b: int| 0 <= a < b < keys.len() ==> (#[trigger] keys[a])@ != (#[trigger] keys[b])@,
            forall|j: int|
                0 <= j < k ==> #[trigger] totals[j] < totals[best as int] || (totals[j] == totals[best as int] && (j
                    == best || lex_lt(keys[best as int]@, keys[j]@))),
    {
        let better = totals[k] > totals[best] || (totals[k] == totals[best] && chars_less(
            keys[k].as_slice(),
            keys[best].as_slice(),
        ));
        proof {
            lemma_lex_order(keys[k as int]@, keys[best as int]@, keys[k as int]@);
            assert forall|j: int| 0 <= j < k implies #[trigger] totals[j] <= totals[best as int] by {}
        }
        if better {
            proof {
                assert forall|j: int| 0 <= j < k + 1 implies #[trigger] totals[j] < totals[k as int] || (
                totals[j] == totals[k as int] && (j == k || lex_lt(keys[k as int]@, keys[j]@))) by {
                    if j < k && totals[j] == totals[k as int] {
                        lemma_lex_order(keys[k as int]@, keys[best as int]@, keys[j]@);
                    }
                }
            }
            best = k;
        } else {
            proof {
                assert(keys[k as int]@ != keys[best as int]@);
            }
        }
    }
    let r = string_from_chars(keys[best].as_slice());
    proof {
        assert(has_key(pv.take(n as int), keys[best as int]@));
        assert forall|w: Seq<char>| #[trigger] has_key(pv, w) implies key_total(pv, w) < key_total(pv, r@)
            || (key_total(pv, w) == key_total(pv, r@) && (w == r@ || lex_lt(r@, w))) by {
            assert(has_key(pv.take(n as int), w));
            let j = choose|j: int| 0 <= j < keys.len() && (#[trigger] keys@[j])@ == w;
            assert(totals[j] < totals[best as int] || (totals[j] == totals[best as int] && (j == best
                || lex_lt(keys[best as int]@, keys[j]@))));
        }
    }
    Some(r)
}

fn copy_char_vec(v: &Vec<char>) -> (r: Vec<char>)
    ensures
        r@ == v@,
{
    let mut r: Vec<char> = Vec::new();
    for i in 0..v.len()
        invariant
            r@ == v@.take(i as int),
    {
        r.push(v[i]);
        assert(v@.take(i + 1) =~= v@.take(i as int).push(v@[i as int]));
    }
    assert(v@.take(v.len() as int) =~= v@);
    r
}

/// The MIME type and score of each match.
pub open spec fn spec_mime_pairs(ms: Seq<MatchView>) -> Seq<(Seq<char>, u64)> {
    ms.map_values(|m: MatchView| (m.mime_type, m.score))
}

/// Each extension of each match with the match's score, in order.
pub open spec fn spec_extension_pairs(ms: Seq<MatchView>) -> Seq<(Seq<char>, u64)>
    decreases ms.len(),
{
    if ms.len() == 0 {
        Seq::empty()
    } else {
        spec_extension_pairs(ms.drop_last()) + ms.last().extensions.map_values(
            |e: Seq<char>| (e, ms.last().score),
        )
    }
}

/// An optional string as values.
pub open spec fn opt_view(o: Option<String>) -> Option<Seq<char>> {
    match o {
        Some(s) => Some(s@),
        None => None,
    }
}

/// Whether `r` is the top value of `pairs`, or `None` exactly when there are no pairs.
pub open spec fn is_top_of(pairs: Seq<(Seq<char>, u64)>, r: Option<String>) -> bool {
    match r {
        Some(v) => is_top_value(pairs, v@),
        None => pairs.len() == 0,
    }
}

fn mime_pairs(matches: &Vec<MatchedDefinition>) -> (r: Vec<(Vec<char>, u64)>)
    ensures
        pairs_view(r@) == spec_mime_pairs(matches_view(matches@)),
{
    let ghost mv = matches_view(matches@);
    let mut out: Vec<(Vec<char>, u64)> = Vec::new();
    for i in 0..matches.len()
        invariant
            mv == matches_view(matches@),
            pairs_view(out@) == spec_mime_pairs(mv).take(i as int),
    {
        let ghost old_out = out@;
        let mime = chars_of(matches[i].mime_type.as_str());
        let ghost mime_view = mime@;
        out.push((mime, matches[i].score));
        proof {
            assert(mv[i as int] == matches@[i as int]@);
            assert(pairs_view(out@) =~= pairs_view(old_out).push((mime_view, matches@[i as int].score)));
            assert(spec_mime_pairs(mv).take(i + 1) =~= spec_mime_pairs(mv).take(i as int).push(
                spec_mime_pairs(mv)[i as int],
            ));
        }
    }
    assert(spec_mime_pairs(mv).take(matches.len() as int) =~= spec_mime_pairs(mv));
    out
}

fn extension_pairs(matches: &Vec<MatchedDefinition>) -> (r: Vec<(Vec<char>, u64)>)
    ensures
        pairs_view(r@) == spec_extension_pairs(matches_view(matches@)),
{
    let ghost mv = matches_view(matches@);
    let mut out: Vec<(Vec<char>, u64)> = Vec::new();
    for i in 0..matches.len()
        invariant
            mv == matches_view(matches@),
            pairs_view(out@) == spec_extension_pairs(mv.take(i as int)),
    {
        let m = &matches[i];
        let ghost before = pairs_view(out@);
        let ghost exts = m@.extensions;
        for j in 0..m.extensions.len()
            invariant
                exts == m@.extensions,
                exts == m.extensions@.map_values(|s: String| s@),
                pairs_view(out@) == before + exts.take(j as int).map_values(
                    |e: Seq<char>| (e, m.score),
                ),
        {
            let ghost old_out = out@;
            let ext = chars_of(m.extensions[j].as_str());
            let ghost ext_view = ext@;
            out.push((ext, m.score));
            proof {
                assert(ext_view == exts[j as int]);
                assert(pairs_view(out@) =~= pairs_view(old_out).push((ext_view, m.score)));
                assert(exts.take(j + 1) =~= exts.take(j as int).push(exts[j as int]));
                assert(exts.take(j + 1).map_values(|e: Seq<char>| (e, m.score)) =~= exts.take(
                    j as int,
                ).map_values(|e: Seq<char>| (e, m.score)).push((exts[j as int], m.score)));
                assert(pairs_view(out@) =~= before + exts.take(j + 1).map_values(
                    |e: Seq<char>| (e, m.score),
                ));
            }
        }
        proof {
            assert(exts.take(exts.len() as int) =~= exts);
            assert(mv.take(i + 1).drop_last() =~= mv.take(i as int));
            assert(mv.take(i + 1).last() == m@);
        }
    }
    assert(mv.take(matches.len() as int) =~= mv);
    out
}

/// The analysis of scanned content, before confidences are computed.
#[derive(Debug)]
pub struct ContentAnalysis {
    /// Ranked content matches ordered from most likely to least likely.
    pub matches: Vec<MatchedDefinition>,
    /// Highest-ranked MIME type after aggregating scores by MIME.
    pub top_mime_type: Option<String>,
    /// Highest-ranked detected extension after aggregating scores by extension.
    pub top_detected_extension: Option<String>,
    /// Heuristic classification of the scanned content.
    pub content_kind: ContentKind,
    /// Number of bytes examined from the file header.
    pub bytes_scanned: usize,
    /// Total file size in bytes.
    pub file_size: u64,
    /// Filename extension derived from the source name.
    pub source_extension: Option<String>,
}

/// The matches before ranking: those of the scoring candidates in definition order, or the
/// fallback match when none scores.
pub open spec fn spec_unranked(
    defs: Seq<RecordView>,
    header: Seq<u8>,
    content: Seq<u8>,
    source_extension: Option<Seq<char>>,
) -> Seq<MatchView> {
    let scored = scored_upto(defs, header, content, defs.len() as int);
    if scored.len() == 0 {
        seq![spec_fallback(source_extension, spec_detect_content_kind(header))]
    } else {
        scored
    }
}

/// Analyzes a file of `file_size` bytes whose first bytes are `scanned`: trailing zero
/// bytes are dropped from the scan, candidates are scored (strings against `content`, the
/// whole file), ranked, and the top MIME type and extension aggregated by summed score.
pub fn analyze_scanned(
    db: &DefinitionDatabase,
    file_size: u64,
    scanned: Vec<u8>,
    content: Option<&[u8]>,
    source_extension: Option<String>,
) -> (r: ContentAnalysis)
    requires
        spec_needs_full_contents(db@, spec_trim_nulls(scanned@)) ==> content is Some,
    ensures
        r.file_size == file_size,
        opt_view(r.source_extension) == opt_view(source_extension),
        file_size == 0 ==> r.matches@.len() == 0 && r.top_mime_type is None
            && r.top_detected_extension is None && r.content_kind == ContentKind::Unknown
            && r.bytes_scanned == 0,
        file_size > 0 ==> ({
            let header = spec_trim_nulls(scanned@);
            let ms = matches_view(r.matches@);
            &&& exists|perm: Seq<int>|
                is_stable_ranking(
                    spec_unranked(db@, header, content_view(content), opt_view(source_extension)),
                    ms,
                    perm,
                )
            &&& is_top_of(spec_mime_pairs(ms), r.top_mime_type)
            &&& is_top_of(spec_extension_pairs(ms), r.top_detected_extension)
            &&& r.content_kind == spec_resolved_content_kind(
                spec_detect_content_kind(header),
                opt_view(r.top_mime_type),
            )
            &&& r.bytes_scanned == header.len()
        }),
{
    if file_size == 0 {
        return ContentAnalysis {
            matches: Vec::new(),
            top_mime_type: None,
            top_detected_extension: None,
            content_kind: ContentKind::Unknown,
            bytes_scanned: 0,
            file_size,
            source_extension,
        };
    }
    let header = trim_trailing_null_bytes(scanned);
    let ghost cv = content_view(content);
    let ghost sv = opt_view(source_extension);
    let heuristic_content_kind = detect_content_kind(header.as_slice());
    let mut ranked = scored_matches(db, header.as_slice(), content);
    if ranked.len() == 0 {
        let source: Option<&str> = match &source_extension {
            Some(s) => Some(s.as_str()),
            None => None,
        };
        ranked.push(MatchedDefinition::fallback(source, heuristic_content_kind));
        assert(matches_view(ranked@) =~= seq![ranked@[0]@]);
    }
    assert(matches_view(ranked@) == spec_unranked(db@, header@, cv, sv));
    let ghost unranked = matches_view(ranked@);
    let ranked = sort_matches(ranked);
    proof {
        let perm = choose|perm: Seq<int>| is_stable_ranking(unranked, matches_view(ranked@), perm);
        assert(is_stable_ranking(spec_unranked(db@, header@, cv, sv), matches_view(ranked@), perm));
    }
    let mimes = mime_pairs(&ranked);
    let top_mime_type = aggregate_top_value(mimes.as_slice());
    let extensions = extension_pairs(&ranked);
    let top_detected_extension = aggregate_top_value(extensions.as_slice());
    let top: Option<&str> = match &top_mime_type {
        Some(s) => Some(s.as_str()),
        None => None,
    };
    let content_kind = resolved_content_kind(heuristic_content_kind, top);
    proof {
        let ms = matches_view(ranked@);
        assert(is_top_of(spec_mime_pairs(ms), top_mime_type));
        assert(is_top_of(spec_extension_pairs(ms), top_detected_extension));
        assert(content_kind == spec_resolved_content_kind(
            spec_detect_content_kind(header@),
            opt_view(top_mime_type),
        ));
    }
    let r = ContentAnalysis {
        matches: ranked,
        top_mime_type,
        top_detected_extension,
        content_kind,
        bytes_scanned: header.len(),
        file_size,
        source_extension,
    };
    proof {
        let h = spec_trim_nulls(scanned@);
        assert(h == header@);
        let ms = matches_view(r.matches@);
        assert(exists|perm: Seq<int>| is_stable_ranking(spec_unranked(db@, h, content_view(content), opt_view(source_extension)), ms, perm));
        assert(is_top_of(spec_mime_pairs(ms), r.top_mime_type));
        assert(r.bytes_scanned == h.len());
    }
    r
}

} // verus!
