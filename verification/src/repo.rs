//! The repository tool's configuration model, its local environment file format, and
//! the semantic-version arithmetic behind its version bumps.
use vstd::prelude::*;

use crate::mime::spec_split_lines;
use crate::text::{
    chars_equal, chars_less, chars_of, lex_lt, lemma_lex_order, lemma_trim_edges, push_decimal,
    push_str, spec_decimal, spec_is_whitespace, spec_trim, string_from_chars, trim_whitespace,
};

verus! {

/// The relative path of the repository configuration file.
pub const CONFIG_PATH: &'static str = "rheo.config.toml";
/// The relative path of the environment template.
pub const ENV_EXAMPLE_PATH: &'static str = ".env.example";
/// The relative path of the local environment file.
pub const ENV_LOCAL_PATH: &'static str = ".env.local";
/// The relative path of the workspace manifest.
pub const ROOT_CARGO_TOML_PATH: &'static str = "Cargo.toml";

/// The repository configuration file.
#[derive(Debug, Clone, PartialEq, Eq)]
pub struct RepoConfig {
    pub versions: VersionConfig,
    pub nuget: NuGetConfig,
    pub ci: CiConfig,
}

/// The two versions the repository publishes.
#[derive(Debug, Clone, PartialEq, Eq)]
pub struct VersionConfig {
    pub rust_workspace: String,
    pub nuget_package: String,
}

/// How the .NET package is described on NuGet.
#[derive(Debug, Clone, PartialEq, Eq)]
pub struct NuGetConfig {
    pub package_id: String,
    pub source: String,
    pub authors: Vec<String>,
    pub description: String,
    pub tags: Vec<String>,
    pub readme: String,
    pub icon: Option<String>,
    pub repository_url: String,
    pub project_url: String,
}

/// The projects and environment continuous integration uses.
#[derive(Debug, Clone, PartialEq, Eq)]
pub struct CiConfig {
    pub smoke_project: String,
    pub package_project: String,
    pub tests_project: String,
    pub environment: String,
    pub runtime: String,
}

/// What `show` prints: the configuration and the local environment, ordered by key.
#[derive(Debug, Clone, PartialEq, Eq)]
pub struct ShowOutput {
    pub config: RepoConfig,
    pub env: Vec<(String, String)>,
}

/// Which of the two versions a command changes.
#[derive(Debug, Clone, Copy, PartialEq, Eq, Structural)]
pub enum VersionChannel {
    Rust,
    NuGet,
}

/// Which component of a version a bump increments.
#[derive(Debug, Clone, Copy, PartialEq, Eq, Structural)]
pub enum VersionPart {
    Major,
    Minor,
    Patch,
}

// ----- the local environment file -----

/// A key and value pair as texts.
pub open spec fn pair_view(p: (Vec<char>, Vec<char>)) -> (Seq<char>, Seq<char>) {
    (p.0@, p.1@)
}

/// Whether the keys of `s` strictly ascend.
pub open spec fn keys_ascending(s: Seq<(Seq<char>, Seq<char>)>) -> bool {
    forall|i: int, j: int| 0 <= i < j < s.len() ==> lex_lt(#[trigger] s[i].0, #[trigger] s[j].0)
}

/// An index of `s` whose key is `k`, when there is one.
pub open spec fn key_index(s: Seq<(Seq<char>, Seq<char>)>, k: Seq<char>) -> int {
    choose|i: int| 0 <= i < s.len() && (#[trigger] s[i]).0 == k
}

/// The map a list of pairs with distinct keys stands for.
pub open spec fn pairs_map(s: Seq<(Seq<char>, Seq<char>)>) -> Map<Seq<char>, Seq<char>> {
    Map::new(
        |k: Seq<char>| exists|i: int| 0 <= i < s.len() && (#[trigger] s[i]).0 == k,
        |k: Seq<char>| s[key_index(s, k)].1,
    )
}

/// Index of the first `=` in `line`, if any.
pub open spec fn first_equals(line: Seq<char>) -> int
    decreases line.len(),
{
    if line.len() == 0 {
        -1
    } else if line[0] == '=' {
        0
    } else {
        let r = first_equals(line.drop_first());
        if r < 0 {
            -1
        } else {
            r + 1
        }
    }
}

/// What the first `k` lines of an environment file give: the map of their `KEY=VALUE`
/// entries (later lines win; blank lines and `#` comments skipped), or the 1-based number
/// of the first line that is neither.
pub open spec fn spec_env_upto(lines: Seq<Seq<char>>, k: nat) -> Result<Map<Seq<char>, Seq<char>>, nat>
    decreases k,
{
    if k == 0 || k > lines.len() {
        Ok(Map::empty())
    } else {
        match spec_env_upto(lines, (k - 1) as nat) {
            Err(n) => Err(n),
            Ok(m) => {
                let line = spec_trim(lines[k - 1]);
                if line.len() == 0 || line[0] == '#' {
                    Ok(m)
                } else {
                    let e = first_equals(line);
                    if e < 0 {
                        Err(k)
                    } else {
                        Ok(m.insert(spec_trim(line.take(e)), spec_trim(line.skip(e + 1))))
                    }
                }
            },
        }
    }
}

/// What an environment file gives.
pub open spec fn spec_parse_env(text: Seq<char>) -> Result<Map<Seq<char>, Seq<char>>, nat> {
    spec_env_upto(spec_split_lines(text), spec_split_lines(text).len())
}

/// The message of a malformed environment line.
pub open spec fn env_error_message(line: nat) -> Seq<char> {
    "invalid env entry on line "@ + spec_decimal(line) + ": expected KEY=VALUE"@
}

proof fn lemma_pairs_map_at(s: Seq<(Seq<char>, Seq<char>)>, i: int)
    requires
        keys_ascending(s),
        0 <= i < s.len(),
    ensures
        pairs_map(s).dom().contains(s[i].0),
        pairs_map(s)[s[i].0] == s[i].1,
{
    let k = s[i].0;
    assert(pairs_map(s).dom().contains(k));
    let j = key_index(s, k);
    assert(0 <= j < s.len() && s[j].0 == k);
    assert(pairs_map(s)[k] == s[j].1);
    if j != i {
        if j < i {
            assert(lex_lt(s[j].0, s[i].0));
        } else {
            assert(lex_lt(s[i].0, s[j].0));
        }
        lemma_lex_order(k, k, k);
    }
}

/// Puts `key` with `value` into the ascending `entries`, replacing the value of an equal key.
fn env_insert(entries: &mut Vec<(Vec<char>, Vec<char>)>, key: Vec<char>, value: Vec<char>)
    requires
        keys_ascending(old(entries)@.map_values(|p: (Vec<char>, Vec<char>)| pair_view(p))),
    ensures
        keys_ascending(final(entries)@.map_values(|p: (Vec<char>, Vec<char>)| pair_view(p))),
        pairs_map(final(entries)@.map_values(|p: (Vec<char>, Vec<char>)| pair_view(p))) == pairs_map(
            old(entries)@.map_values(|p: (Vec<char>, Vec<char>)| pair_view(p)),
        ).insert(key@, value@),
{
    let ghost s0 = entries@.map_values(|p: (Vec<char>, Vec<char>)| pair_view(p));
    let mut p: usize = 0;
    while p < entries.len() && chars_less(entries[p].0.as_slice(), key.as_slice())
        invariant
            p <= entries.len(),
            s0 == entries@.map_values(|q: (Vec<char>, Vec<char>)| pair_view(q)),
            forall|i: int| 0 <= i < p ==> lex_lt(#[trigger] s0[i].0, key@),
        decreases entries.len() - p,
    {
        p = p + 1;
    }
    let n = entries.len();
    if p < n && chars_equal(entries[p].0.as_slice(), key.as_slice()) {
        entries.set(p, (key, value));
        proof {
            let s1 = entries@.map_values(|q: (Vec<char>, Vec<char>)| pair_view(q));
            assert(s1 =~= s0.update(p as int, (key@, value@)));
            assert forall|i: int, j: int| 0 <= i < j < s1.len() implies lex_lt(
                #[trigger] s1[i].0,
                #[trigger] s1[j].0,
            ) by {
                assert(s1[i].0 == s0[i].0);
                assert(s1[j].0 == s0[j].0);
            }
            let m1 = pairs_map(s1);
            let m0 = pairs_map(s0).insert(key@, value@);
            assert forall|k: Seq<char>| #[trigger] m1.dom().contains(k) <==> m0.dom().contains(k) by {
                if m1.dom().contains(k) {
                    let i = choose|i: int| 0 <= i < s1.len() && (#[trigger] s1[i]).0 == k;
                    assert(s0[i].0 == k);
                }
                if m0.dom().contains(k) && k != key@ {
                    let i = choose|i: int| 0 <= i < s0.len() && (#[trigger] s0[i]).0 == k;
                    assert(s1[i].0 == k);
                }
                if k == key@ {
                    assert(s1[p as int].0 == k);
                }
            }
            assert forall|k: Seq<char>| m1.dom().contains(k) implies #[trigger] m1[k] == m0[k] by {
                let i = choose|i: int| 0 <= i < s1.len() && (#[trigger] s1[i]).0 == k;
                lemma_pairs_map_at(s1, i);
                if i != p {
                    lemma_pairs_map_at(s0, i);
                    if i < p {
                        assert(lex_lt(s0[i].0, s0[p as int].0));
                    } else {
                        assert(lex_lt(s0[p as int].0, s0[i].0));
                    }
                    lemma_lex_order(k, k, k);
                    assert(k != key@);
                } else {
                    assert(s1[i] == (key@, value@));
                }
            }
            assert(m1 =~= m0);
        }
    } else {
        proof {
            if p < n {
                lemma_lex_order(key@, s0[p as int].0, key@);
                assert(lex_lt(key@, s0[p as int].0));
            }
        }
        entries.insert(p, (key, value));
        proof {
            let s1 = entries@.map_values(|q: (Vec<char>, Vec<char>)| pair_view(q));
            assert(s1 =~= s0.insert(p as int, (key@, value@)));
            assert forall|i: int, j: int| 0 <= i < j < s1.len() implies lex_lt(
                #[trigger] s1[i].0,
                #[trigger] s1[j].0,
            ) by {
                if i < p && j == p {
                } else if i == p && j > p {
                    lemma_lex_order(key@, s0[p as int].0, s0[j - 1].0);
                    if j - 1 > p {
                        assert(lex_lt(s0[p as int].0, s0[j - 1].0));
                    }
                } else if i < p && j > p {
                    lemma_lex_order(s0[i].0, key@, s0[j - 1].0);
                    lemma_lex_order(key@, s0[p as int].0, s0[j - 1].0);
                    if j - 1 > p {
                        assert(lex_lt(s0[p as int].0, s0[j - 1].0));
                    }
                } else if i > p {
                    assert(s1[i].0 == s0[i - 1].0);
                    assert(s1[j].0 == s0[j - 1].0);
                }
            }
            let m1 = pairs_map(s1);
            let m0 = pairs_map(s0).insert(key@, value@);
            assert forall|k: Seq<char>| #[trigger] m1.dom().contains(k) <==> m0.dom().contains(k) by {
                if m1.dom().contains(k) {
                    let i = choose|i: int| 0 <= i < s1.len() && (#[trigger] s1[i]).0 == k;
                    if i < p {
                        assert(s0[i].0 == k);
                    } else if i > p {
                        assert(s0[i - 1].0 == k);
                    }
                }
                if m0.dom().contains(k) && k != key@ {
                    let i = choose|i: int| 0 <= i < s0.len() && (#[trigger] s0[i]).0 == k;
                    if i < p {
                        assert(s1[i].0 == k);
                    } else {
                        assert(s1[i + 1].0 == k);
                    }
                }
                if k == key@ {
                    assert(s1[p as int].0 == k);
                }
            }
            assert forall|k: Seq<char>| m1.dom().contains(k) implies #[trigger] m1[k] == m0[k] by {
                let i = choose|i: int| 0 <= i < s1.len() && (#[trigger] s1[i]).0 == k;
                lemma_pairs_map_at(s1, i);
                if i < p {
                    lemma_pairs_map_at(s0, i);
                    assert(lex_lt(s0[i].0, key@));
                    lemma_lex_order(key@, key@, key@);
                    assert(k != key@);
                } else if i > p {
                    lemma_pairs_map_at(s0, i - 1);
                    assert(s1[i] == s0[i - 1]);
                    if k == key@ {
                        lemma_lex_order(key@, s0[p as int].0, s0[i - 1].0);
                        if i - 1 > p {
                            assert(lex_lt(s0[p as int].0, s0[i - 1].0));
                        }
                        lemma_lex_order(key@, key@, key@);
                    }
                }
            }
            assert(m1 =~= m0);
        }
    }
}

/// The lines of `text` between line feeds, the last one possibly empty.
pub fn split_lines(text: &str) -> (r: Vec<Vec<char>>)
    ensures
        r@.map_values(|l: Vec<char>| l@) == spec_split_lines(text@),
{
    let cs = chars_of(text);
    let mut done: Vec<Vec<char>> = Vec::new();
    let mut line: Vec<char> = Vec::new();
    let mut i: usize = 0;
    assert(cs@.take(0) =~= Seq::<char>::empty());
    while i < cs.len()
        invariant
            i <= cs@.len(),
            spec_split_lines(cs@.take(i as int)) == done@.map_values(|l: Vec<char>| l@).push(line@),
        decreases cs@.len() - i,
    {
        let c = cs[i];
        let ghost before = spec_split_lines(cs@.take(i as int));
        proof {
            assert(cs@.take(i + 1).drop_last() =~= cs@.take(i as int));
            assert(cs@.take(i + 1).last() == c);
        }
        if c == '\n' {
            let finished = line;
            done.push(finished);
            line = Vec::new();
            proof {
                assert(spec_split_lines(cs@.take(i + 1)) == before.push(Seq::empty()));
                assert(done@.map_values(|l: Vec<char>| l@) =~= before);
                assert(line@ =~= Seq::<char>::empty());
            }
        } else {
            line.push(c);
            proof {
                assert(spec_split_lines(cs@.take(i + 1)) == before.update(
                    before.len() - 1,
                    before.last().push(c),
                ));
                assert(spec_split_lines(cs@.take(i + 1)) =~= done@.map_values(|l: Vec<char>| l@).push(
                    line@,
                ));
            }
        }
        i = i + 1;
    }
    assert(cs@.take(cs@.len() as int) =~= cs@);
    done.push(line);
    done
}

fn find_equals(line: &[char]) -> (r: Option<usize>)
    ensures
        match r {
            Some(e) => e == first_equals(line@) && e < line@.len(),
            None => first_equals(line@) < 0,
        },
{
    let mut i: usize = 0;
    while i < line.len()
        invariant
            i <= line@.len(),
            forall|k: int| 0 <= k < i ==> line@[k] != '=',
        decreases line@.len() - i,
    {
        if line[i] == '=' {
            proof {
                lemma_first_equals_at(line@, i as int);
            }
            return Some(i);
        }
        i = i + 1;
    }
    proof {
        lemma_first_equals_none(line@);
    }
    None
}

proof fn lemma_first_equals_at(s: Seq<char>, i: int)
    requires
        0 <= i < s.len(),
        s[i] == '=',
        forall|k: int| 0 <= k < i ==> s[k] != '=',
    ensures
        first_equals(s) == i,
    decreases i,
{
    if i > 0 {
        lemma_first_equals_at(s.drop_first(), i - 1);
    }
}

proof fn lemma_first_equals_none(s: Seq<char>)
    requires
        forall|k: int| 0 <= k < s.len() ==> s[k] != '=',
    ensures
        first_equals(s) < 0,
    decreases s.len(),
{
    if s.len() > 0 {
        lemma_first_equals_none(s.drop_first());
    }
}

fn copy_range(v: &[char], start: usize, end: usize) -> (r: Vec<char>)
    requires
        start <= end <= v@.len(),
    ensures
        r@ == v@.subrange(start as int, end as int),
{
    let mut out: Vec<char> = Vec::new();
    let mut i: usize = start;
    while i < end
        invariant
            start <= i <= end <= v@.len(),
            out@ == v@.subrange(start as int, i as int),
        decreases end - i,
    {
        out.push(v[i]);
        i = i + 1;
        assert(out@ =~= v@.subrange(start as int, i as int));
    }
    out
}

proof fn lemma_env_upto_trimmed(lines: Seq<Seq<char>>, k: nat)
    ensures
        spec_env_upto(lines, k) matches Ok(m) ==> forall|key: Seq<char>|
            #[trigger] m.dom().contains(key) ==> {
                &&& key.len() > 0 ==> !spec_is_whitespace(key[0]) && !spec_is_whitespace(key.last())
                &&& m[key].len() > 0 ==> !spec_is_whitespace(m[key][0]) && !spec_is_whitespace(
                    m[key].last(),
                )
            },
    decreases k,
{
    if k > 0 && k <= lines.len() {
        lemma_env_upto_trimmed(lines, (k - 1) as nat);
        let line = spec_trim(lines[k - 1]);
        let e = first_equals(line);
        if e >= 0 {
            lemma_trim_edges(line.take(e));
            lemma_trim_edges(line.skip(e + 1));
        }
    }
}

/// Every key and value the environment parser gives is trimmed: none starts or ends with
/// whitespace, so `KEY = VALUE` gives the key `KEY` and the value `VALUE`.
pub proof fn lemma_env_entries_trimmed(text: Seq<char>)
    ensures
        spec_parse_env(text) matches Ok(m) ==> forall|key: Seq<char>|
            #[trigger] m.dom().contains(key) ==> {
                &&& key.len() > 0 ==> !spec_is_whitespace(key[0]) && !spec_is_whitespace(key.last())
                &&& m[key].len() > 0 ==> !spec_is_whitespace(m[key][0]) && !spec_is_whitespace(
                    m[key].last(),
                )
            },
{
    lemma_env_upto_trimmed(spec_split_lines(text), spec_split_lines(text).len());
}

/// Parses an environment file: one `KEY=VALUE` per line, keys and values trimmed, blank
/// lines and lines starting with `#` skipped, a later line for a key replacing an earlier
/// one. The entries come out ordered by key; a line without `=` is refused with its number.
pub fn parse_env_content(content: &str) -> (r: Result<Vec<(String, String)>, String>)
    ensures
        match spec_parse_env(content@) {
            Ok(m) => r matches Ok(v) && keys_ascending(v@.map_values(|p: (String, String)| (p.0@, p.1@)))
                && pairs_map(v@.map_values(|p: (String, String)| (p.0@, p.1@))) == m,
            Err(n) => r matches Err(msg) && msg@ == env_error_message(n),
        },
{
    let lines = split_lines(content);
    let ghost pieces = lines@.map_values(|l: Vec<char>| l@);
    let mut entries: Vec<(Vec<char>, Vec<char>)> = Vec::new();
    let mut k: usize = 0;
    assert(entries@.map_values(|p: (Vec<char>, Vec<char>)| pair_view(p)) =~= Seq::empty());
    assert(pairs_map(Seq::<(Seq<char>, Seq<char>)>::empty()) =~= Map::empty());
    while k < lines.len()
        invariant
            k <= lines@.len(),
            pieces == lines@.map_values(|l: Vec<char>| l@),
            pieces == spec_split_lines(content@),
            keys_ascending(entries@.map_values(|p: (Vec<char>, Vec<char>)| pair_view(p))),
            spec_env_upto(pieces, k as nat) == Ok::<Map<Seq<char>, Seq<char>>, nat>(
                pairs_map(entries@.map_values(|p: (Vec<char>, Vec<char>)| pair_view(p))),
            ),
        decreases lines@.len() - k,
    {
        let line = trim_whitespace(lines[k].as_slice());
        assert(pieces[k as int] == lines@[k as int]@);
        if line.len() == 0 || line[0] == '#' {
            k = k + 1;
            continue;
        }
        match find_equals(line.as_slice()) {
            None => {
                let mut msg: Vec<char> = Vec::new();
                push_str(&mut msg, "invalid env entry on line ");
                push_decimal(&mut msg, (k as u64) + 1);
                push_str(&mut msg, ": expected KEY=VALUE");
                proof {
                    lemma_env_error_sticks(pieces, (k + 1) as nat, pieces.len());
                    assert(msg@ =~= env_error_message((k + 1) as nat));
                }
                return Err(string_from_chars(msg.as_slice()));
            },
            Some(e) => {
                let key_part = copy_range(line.as_slice(), 0, e);
                let value_part = copy_range(line.as_slice(), e + 1, line.len());
                let key = trim_whitespace(key_part.as_slice());
                let value = trim_whitespace(value_part.as_slice());
                proof {
                    assert(key_part@ =~= line@.take(e as int));
                    assert(value_part@ =~= line@.skip(e + 1));
                }
                env_insert(&mut entries, key, value);
                k = k + 1;
            },
        }
    }
    proof {
        assert(pieces.len() == lines@.len());
    }
    let mut out: Vec<(String, String)> = Vec::new();
    let mut i: usize = 0;
    while i < entries.len()
        invariant
            i <= entries@.len(),
            out@.map_values(|p: (String, String)| (p.0@, p.1@)) == entries@.map_values(
                |p: (Vec<char>, Vec<char>)| pair_view(p),
            ).take(i as int),
        decreases entries@.len() - i,
    {
        let key = string_from_chars(entries[i].0.as_slice());
        let value = string_from_chars(entries[i].1.as_slice());
        let ghost prev = out@;
        let ghost ev = entries@.map_values(|p: (Vec<char>, Vec<char>)| pair_view(p));
        out.push((key, value));
        assert(out@ == prev.push((key, value)));
        assert(ev[i as int] == (key@, value@));
        assert(ev.take(i + 1) =~= ev.take(i as int).push(ev[i as int]));
        assert(out@.map_values(|p: (String, String)| (p.0@, p.1@)) =~= prev.map_values(
            |p: (String, String)| (p.0@, p.1@),
        ).push((key@, value@)));
        i = i + 1;
    }
    assert(entries@.map_values(|p: (Vec<char>, Vec<char>)| pair_view(p)).take(entries@.len() as int)
        =~= entries@.map_values(|p: (Vec<char>, Vec<char>)| pair_view(p)));
    Ok(out)
}

proof fn lemma_env_error_sticks(lines: Seq<Seq<char>>, k: nat, n: nat)
    requires
        1 <= k <= n <= lines.len(),
        spec_env_upto(lines, k) == Err::<Map<Seq<char>, Seq<char>>, nat>(k),
    ensures
        spec_env_upto(lines, n) == Err::<Map<Seq<char>, Seq<char>>, nat>(k),
    decreases n - k,
{
    if n > k {
        lemma_env_error_sticks(lines, k, (n - 1) as nat);
    }
}

// ----- semantic versions -----

/// A semantic version as values: major, minor and patch numbers, and the pre-release and
/// build texts (empty when absent).
#[derive(Debug, Clone, PartialEq, Eq)]
pub struct SemanticVersion {
    pub major: u64,
    pub minor: u64,
    pub patch: u64,
    pub pre: String,
    pub build: String,
}

/// A version as values.
pub type VersionView = (u64, u64, u64, Seq<char>, Seq<char>);

impl View for SemanticVersion {
    type V = VersionView;

    open spec fn view(&self) -> VersionView {
        (self.major, self.minor, self.patch, self.pre@, self.build@)
    }
}

/// What `semver::Version::parse` reads out of `text`, or `None` when it refuses it.
pub uninterp spec fn semver_parse(text: Seq<char>) -> Option<VersionView>;

/// Calls `semver::Version::parse`. Claimed: it succeeds exactly when `semver_parse` gives a
/// version, and gives that version's numbers and pre-release and build texts.
#[verifier::external_body]
fn parse_semver(text: &str) -> (r: Option<SemanticVersion>)
    ensures
        match r {
            Some(v) => semver_parse(text@) == Some(v@),
            None => semver_parse(text@) is None,
        },
{
    match semver::Version::parse(text) {
        Ok(v) => Some(SemanticVersion {
            major: v.major,
            minor: v.minor,
            patch: v.patch,
            pre: v.pre.as_str().to_owned(),
            build: v.build.as_str().to_owned(),
        }),
        Err(_) => None,
    }
}

/// The text a version displays as: `major.minor.patch`, then `-pre` and `+build` when
/// those are not empty.
pub open spec fn version_text(v: VersionView) -> Seq<char> {
    spec_decimal(v.0 as nat) + "."@ + spec_decimal(v.1 as nat) + "."@ + spec_decimal(v.2 as nat)
        + (if v.3.len() > 0 { "-"@ + v.3 } else { Seq::empty() }) + (if v.4.len() > 0 {
        "+"@ + v.4
    } else {
        Seq::empty()
    })
}

impl SemanticVersion {
    /// Parses a version with `semver`.
    pub fn parse(text: &str) -> (r: Option<SemanticVersion>)
        ensures
            match r {
                Some(v) => semver_parse(text@) == Some(v@),
                None => semver_parse(text@) is None,
            },
    {
        parse_semver(text)
    }

    /// The version as text.
    pub fn to_text(&self) -> (r: String)
        ensures
            r@ == version_text(self@),
    {
        let mut out: Vec<char> = Vec::new();
        push_decimal(&mut out, self.major);
        push_str(&mut out, ".");
        push_decimal(&mut out, self.minor);
        push_str(&mut out, ".");
        push_decimal(&mut out, self.patch);
        let ghost base = out@;
        if !self.pre.as_str().is_empty() {
            push_str(&mut out, "-");
            push_str(&mut out, self.pre.as_str());
        }
        let ghost with_pre = out@;
        if !self.build.as_str().is_empty() {
            push_str(&mut out, "+");
            push_str(&mut out, self.build.as_str());
        }
        proof {
            reveal_strlit(".");
            reveal_strlit("-");
            reveal_strlit("+");
            assert(base =~= spec_decimal(self.major as nat) + "."@ + spec_decimal(self.minor as nat) + "."@
                + spec_decimal(self.patch as nat));
            assert(with_pre =~= base + (if self.pre@.len() > 0 { "-"@ + self.pre@ } else { Seq::empty() }));
            assert(out@ =~= with_pre + (if self.build@.len() > 0 { "+"@ + self.build@ } else { Seq::empty() }));
        }
        string_from_chars(out.as_slice())
    }
}

/// The version after a bump: the chosen component incremented and the smaller ones reset
/// to zero, pre-release and build kept.
pub open spec fn spec_bumped(v: VersionView, part: VersionPart) -> VersionView {
    match part {
        VersionPart::Major => ((v.0 + 1) as u64, 0u64, 0u64, v.3, v.4),
        VersionPart::Minor => (v.0, (v.1 + 1) as u64, 0u64, v.3, v.4),
        VersionPart::Patch => (v.0, v.1, (v.2 + 1) as u64, v.3, v.4),
    }
}

/// The component a bump increments.
pub open spec fn bumped_component(v: VersionView, part: VersionPart) -> u64 {
    match part {
        VersionPart::Major => v.0,
        VersionPart::Minor => v.1,
        VersionPart::Patch => v.2,
    }
}

impl VersionPart {
    /// Bumps `v` at this component.
    pub fn apply(self, v: &SemanticVersion) -> (r: SemanticVersion)
        requires
            bumped_component(v@, self) < u64::MAX,
        ensures
            r@ == spec_bumped(v@, self),
    {
        match self {
            VersionPart::Major => SemanticVersion {
                major: v.major + 1,
                minor: 0,
                patch: 0,
                pre: v.pre.clone(),
                build: v.build.clone(),
            },
            VersionPart::Minor => SemanticVersion {
                major: v.major,
                minor: v.minor + 1,
                patch: 0,
                pre: v.pre.clone(),
                build: v.build.clone(),
            },
            VersionPart::Patch => SemanticVersion {
                major: v.major,
                minor: v.minor,
                patch: v.patch + 1,
                pre: v.pre.clone(),
                build: v.build.clone(),
            },
        }
    }
}

/// Why a version could not be bumped.
#[derive(Debug, Clone, PartialEq, Eq)]
pub enum BumpError {
    /// The configured version is not a semantic version.
    InvalidVersion { text: String },
    /// The component to increment is already the largest number it can hold.
    ComponentOverflow,
}

/// The text of the version after bumping `current` at `part`.
pub fn next_version(current: &str, part: VersionPart) -> (r: Result<String, BumpError>)
    ensures
        match semver_parse(current@) {
            None => r matches Err(BumpError::InvalidVersion { text }) && text@ == current@,
            Some(v) => if bumped_component(v, part) < u64::MAX {
                r matches Ok(s) && s@ == version_text(spec_bumped(v, part))
            } else {
                r matches Err(BumpError::ComponentOverflow)
            },
        },
{
    match SemanticVersion::parse(current) {
        None => Err(BumpError::InvalidVersion { text: current.to_owned() }),
        Some(v) => {
            let c = match part {
                VersionPart::Major => v.major,
                VersionPart::Minor => v.minor,
                VersionPart::Patch => v.patch,
            };
            if c == u64::MAX {
                return Err(BumpError::ComponentOverflow);
            }
            let next = part.apply(&v);
            Ok(next.to_text())
        },
    }
}


/// What is wrong with a configuration's own fields, checked in this order: the Rust
/// workspace version and the NuGet package version must parse as semantic versions, the
/// package id must not be blank, and there must be authors and tags.
pub open spec fn spec_config_problem(config: RepoConfig) -> Option<Seq<char>> {
    if semver_parse(config.versions.rust_workspace@) is None {
        Some("invalid rust workspace version: "@ + config.versions.rust_workspace@)
    } else if semver_parse(config.versions.nuget_package@) is None {
        Some("invalid nuget package version: "@ + config.versions.nuget_package@)
    } else if spec_trim(config.nuget.package_id@).len() == 0 {
        Some("nuget.package_id must not be empty"@)
    } else if config.nuget.authors@.len() == 0 {
        Some("nuget.authors must not be empty"@)
    } else if config.nuget.tags@.len() == 0 {
        Some("nuget.tags must not be empty"@)
    } else {
        None
    }
}

fn prefixed(prefix: &str, text: &str) -> (r: String)
    ensures
        r@ == prefix@ + text@,
{
    let mut out: Vec<char> = Vec::new();
    push_str(&mut out, prefix);
    push_str(&mut out, text);
    string_from_chars(out.as_slice())
}

/// Checks a configuration's own fields; the repository paths it names are checked by
/// the caller, in the order `required_paths` gives.
pub fn check_config_fields(config: &RepoConfig) -> (r: Result<(), String>)
    ensures
        match spec_config_problem(*config) {
            Some(m) => r matches Err(e) && e@ == m,
            None => r is Ok,
        },
{
    if SemanticVersion::parse(config.versions.rust_workspace.as_str()).is_none() {
        return Err(prefixed("invalid rust workspace version: ", config.versions.rust_workspace.as_str()));
    }
    if SemanticVersion::parse(config.versions.nuget_package.as_str()).is_none() {
        return Err(prefixed("invalid nuget package version: ", config.versions.nuget_package.as_str()));
    }
    let id = trim_whitespace(chars_of(config.nuget.package_id.as_str()).as_slice());
    if id.len() == 0 {
        return Err("nuget.package_id must not be empty".to_owned());
    }
    if config.nuget.authors.len() == 0 {
        return Err("nuget.authors must not be empty".to_owned());
    }
    if config.nuget.tags.len() == 0 {
        return Err("nuget.tags must not be empty".to_owned());
    }
    Ok(())
}

/// The repository-relative paths a valid configuration needs to exist, in the order they
/// are checked.
pub open spec fn spec_required_paths(config: RepoConfig) -> Seq<Seq<char>> {
    seq![
        CONFIG_PATH@,
        ROOT_CARGO_TOML_PATH@,
        config.ci.package_project@,
        config.ci.tests_project@,
        config.ci.smoke_project@,
        config.nuget.readme@,
    ] + match config.nuget.icon {
        Some(icon) => seq![icon@],
        None => Seq::empty(),
    } + seq![ENV_EXAMPLE_PATH@]
}

/// The repository-relative paths a valid configuration needs to exist, in order.
pub fn required_paths(config: &RepoConfig) -> (r: Vec<String>)
    ensures
        r@.map_values(|s: String| s@) == spec_required_paths(*config),
{
    let mut out: Vec<String> = Vec::new();
    out.push(CONFIG_PATH.to_owned());
    out.push(ROOT_CARGO_TOML_PATH.to_owned());
    out.push(config.ci.package_project.clone());
    out.push(config.ci.tests_project.clone());
    out.push(config.ci.smoke_project.clone());
    out.push(config.nuget.readme.clone());
    match &config.nuget.icon {
        Some(icon) => out.push(icon.clone()),
        None => {},
    }
    out.push(ENV_EXAMPLE_PATH.to_owned());
    assert(out@.map_values(|s: String| s@) =~= spec_required_paths(*config));
    out
}

/// A version in its canonical text, as `set_version` stores it.
pub fn canonical_version(text: &str) -> (r: Result<String, BumpError>)
    ensures
        match semver_parse(text@) {
            None => r matches Err(BumpError::InvalidVersion { text: t }) && t@ == text@,
            Some(v) => r matches Ok(s) && s@ == version_text(v),
        },
{
    match SemanticVersion::parse(text) {
        None => Err(BumpError::InvalidVersion { text: text.to_owned() }),
        Some(v) => Ok(v.to_text()),
    }
}

impl VersionConfig {
    /// The version a channel publishes.
    pub fn version_of(&self, channel: VersionChannel) -> (r: &str)
        ensures
            r@ == match channel {
                VersionChannel::Rust => self.rust_workspace@,
                VersionChannel::NuGet => self.nuget_package@,
            },
    {
        match channel {
            VersionChannel::Rust => self.rust_workspace.as_str(),
            VersionChannel::NuGet => self.nuget_package.as_str(),
        }
    }

    /// Sets the version a channel publishes, leaving the other.
    pub fn set_version_of(&mut self, channel: VersionChannel, version: String)
        ensures
            final(self).rust_workspace@ == (match channel {
                VersionChannel::Rust => version@,
                VersionChannel::NuGet => old(self).rust_workspace@,
            }),
            final(self).nuget_package@ == (match channel {
                VersionChannel::Rust => old(self).nuget_package@,
                VersionChannel::NuGet => version@,
            }),
    {
        match channel {
            VersionChannel::Rust => self.rust_workspace = version,
            VersionChannel::NuGet => self.nuget_package = version,
        }
    }
}

} // verus!
