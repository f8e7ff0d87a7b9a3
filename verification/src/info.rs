//! File-system metadata records and byte-size formatting.
use vstd::prelude::*;

use std::path::PathBuf;
use std::time::SystemTime;

use crate::analysis::{normalized_extension, spec_normalized_extension};
use crate::storage::{extension, extension_of};
use crate::text::{push_decimal, push_str, spec_decimal, string_from_chars};

verus! {

/// Units used for formatting byte sizes.
#[derive(Debug, Clone, Copy, PartialEq, Eq, Structural)]
pub enum SizeUnit {
    Bytes,
    KiB,
    MiB,
    GiB,
    TiB,
}

/// Shared file-system metadata for files and directories.
#[derive(Debug)]
pub struct StorageMetadata {
    path: PathBuf,
    name: String,
    is_read_only: bool,
    is_hidden: bool,
    is_system: bool,
    is_temporary: bool,
    is_symbolic_link: bool,
    link_target: Option<PathBuf>,
    created_at: Option<SystemTime>,
    modified_at: Option<SystemTime>,
    accessed_at: Option<SystemTime>,
}

impl StorageMetadata {
    /// Metadata with the given path, name, attribute flags, link target and timestamps.
    pub fn new(
        path: PathBuf,
        name: String,
        flags: (bool, bool, bool, bool, bool),
        link_target: Option<PathBuf>,
        times: (Option<SystemTime>, Option<SystemTime>, Option<SystemTime>),
    ) -> (r: StorageMetadata)
        ensures
            r.spec_path() == path,
            r.spec_name() == name@,
            r.spec_flags() == flags,
            r.spec_link_target() == link_target,
            r.spec_times() == times,
    {
        let (is_read_only, is_hidden, is_system, is_temporary, is_symbolic_link) = flags;
        let (created_at, modified_at, accessed_at) = times;
        StorageMetadata {
            path,
            name,
            is_read_only,
            is_hidden,
            is_system,
            is_temporary,
            is_symbolic_link,
            link_target,
            created_at,
            modified_at,
            accessed_at,
        }
    }

    /// The absolute path.
    pub closed spec fn spec_path(&self) -> PathBuf {
        self.path
    }

    /// The final path component.
    pub closed spec fn spec_name(&self) -> Seq<char> {
        self.name@
    }

    /// The flags: read-only, hidden, system, temporary, symbolic link.
    pub closed spec fn spec_flags(&self) -> (bool, bool, bool, bool, bool) {
        (self.is_read_only, self.is_hidden, self.is_system, self.is_temporary, self.is_symbolic_link)
    }

    /// The target of a symbolic link.
    pub closed spec fn spec_link_target(&self) -> Option<PathBuf> {
        self.link_target
    }

    /// The creation, modification and access times.
    pub closed spec fn spec_times(&self) -> (Option<SystemTime>, Option<SystemTime>, Option<SystemTime>) {
        (self.created_at, self.modified_at, self.accessed_at)
    }

    /// The absolute path.
    pub fn path(&self) -> (r: &PathBuf)
        ensures
            *r == self.spec_path(),
    {
        &self.path
    }

    /// The final path component.
    pub fn name(&self) -> (r: &str)
        ensures
            r@ == self.spec_name(),
    {
        self.name.as_str()
    }

    /// Whether the entry is read-only.
    pub fn is_read_only(&self) -> (r: bool)
        ensures
            r == self.spec_flags().0,
    {
        self.is_read_only
    }

    /// Whether the entry is hidden.
    pub fn is_hidden(&self) -> (r: bool)
        ensures
            r == self.spec_flags().1,
    {
        self.is_hidden
    }

    /// Whether the entry is a system entry.
    pub fn is_system(&self) -> (r: bool)
        ensures
            r == self.spec_flags().2,
    {
        self.is_system
    }

    /// Whether the entry is temporary.
    pub fn is_temporary(&self) -> (r: bool)
        ensures
            r == self.spec_flags().3,
    {
        self.is_temporary
    }

    /// Whether the entry is a symbolic link.
    pub fn is_symbolic_link(&self) -> (r: bool)
        ensures
            r == self.spec_flags().4,
    {
        self.is_symbolic_link
    }

    /// The target of a symbolic link, when the entry is one and it could be read.
    pub fn link_target(&self) -> (r: Option<&PathBuf>)
        ensures
            match r {
                Some(p) => self.spec_link_target() == Some(*p),
                None => self.spec_link_target() is None,
            },
    {
        match &self.link_target {
            Some(p) => Some(p),
            None => None,
        }
    }

    /// The creation time, where the platform reports one.
    pub fn created_at(&self) -> (r: Option<SystemTime>)
        ensures
            r == self.spec_times().0,
    {
        self.created_at
    }

    /// The last modification time, where the platform reports one.
    pub fn modified_at(&self) -> (r: Option<SystemTime>)
        ensures
            r == self.spec_times().1,
    {
        self.modified_at
    }

    /// The last access time, where the platform reports one.
    pub fn accessed_at(&self) -> (r: Option<SystemTime>)
        ensures
            r == self.spec_times().2,
    {
        self.accessed_at
    }
}

/// Recursive directory statistics computed on demand.
#[derive(Debug, Clone, Copy, Default, PartialEq, Eq, Structural)]
pub struct DirectorySummary {
    /// Total size of recursively discovered files.
    pub total_size: u64,
    /// Total number of recursively discovered files.
    pub file_count: u64,
    /// Total number of recursively discovered subdirectories.
    pub directory_count: u64,
}

impl DirectorySummary {
    /// Adds the counts of `rhs`, as the scan does for each child entry.
    pub fn add_assign(&mut self, rhs: DirectorySummary)
        requires
            old(self).total_size + rhs.total_size <= u64::MAX,
            old(self).file_count + rhs.file_count <= u64::MAX,
            old(self).directory_count + rhs.directory_count <= u64::MAX,
        ensures
            final(self).total_size == old(self).total_size + rhs.total_size,
            final(self).file_count == old(self).file_count + rhs.file_count,
            final(self).directory_count == old(self).directory_count + rhs.directory_count,
    {
        self.total_size = self.total_size + rhs.total_size;
        self.file_count = self.file_count + rhs.file_count;
        self.directory_count = self.directory_count + rhs.directory_count;
    }

    /// The recursive size, formatted in the unit that suits it.
    pub fn formatted_size(&self) -> (r: String)
        ensures
            r@ == spec_format_size(self.total_size, None),
    {
        format_size(self.total_size, None)
    }
}

/// Windows shell display metadata loaded lazily when requested.
#[derive(Debug, Clone, PartialEq, Eq)]
pub struct WindowsShellDetails {
    pub display_name: Option<String>,
    pub type_label: Option<String>,
}

/// Windows shell icon pixels loaded lazily when requested.
#[derive(Debug, Clone, PartialEq, Eq)]
pub struct WindowsShellIcon {
    pub width: i32,
    pub height: i32,
    pub rgba: Vec<u8>,
}

/// Whether every whole pixel of `bgra` has alpha 0 (a bitmap drawn without an alpha
/// channel).
pub open spec fn all_alpha_zero(bgra: Seq<u8>) -> bool {
    forall|k: int| 0 <= k < bgra.len() - bgra.len() % 4 && k % 4 == 3 ==> bgra[k] == 0
}

/// Byte `k` of the RGBA pixels made from BGRA pixels `bgra`: blue and red swapped, alpha
/// kept, or made opaque when no pixel has any alpha; bytes of a trailing partial pixel are 0.
pub open spec fn rgba_byte(bgra: Seq<u8>, k: int) -> u8 {
    if k >= bgra.len() - bgra.len() % 4 {
        0
    } else if k % 4 == 0 {
        bgra[k + 2]
    } else if k % 4 == 1 {
        bgra[k]
    } else if k % 4 == 2 {
        bgra[k - 2]
    } else if all_alpha_zero(bgra) {
        255
    } else {
        bgra[k]
    }
}

/// The RGBA pixels of a shell icon's BGRA bitmap, as `rgba_byte` says.
pub fn bgra_to_rgba(bgra: &[u8]) -> (r: Vec<u8>)
    ensures
        r@.len() == bgra@.len(),
        forall|k: int| 0 <= k < bgra@.len() ==> #[trigger] r@[k] == rgba_byte(bgra@, k),
{
    let n = bgra.len();
    let whole = n - n % 4;
    let mut rgba: Vec<u8> = Vec::new();
    let mut saw_alpha = false;
    let mut j: usize = 0;
    while j < whole
        invariant
            whole == n - n % 4,
            n == bgra@.len(),
            j <= whole,
            j % 4 == 0,
            rgba@.len() == j,
            saw_alpha <==> exists|k: int| 0 <= k < j && k % 4 == 3 && bgra@[k] != 0,
            forall|k: int| 0 <= k < j && k % 4 != 3 ==> #[trigger] rgba@[k] == rgba_byte(bgra@, k),
            forall|k: int| 0 <= k < j && k % 4 == 3 ==> #[trigger] rgba@[k] == bgra@[k],
        decreases whole - j,
    {
        rgba.push(bgra[j + 2]);
        rgba.push(bgra[j + 1]);
        rgba.push(bgra[j]);
        rgba.push(bgra[j + 3]);
        if bgra[j + 3] != 0 {
            saw_alpha = true;
        }
        j = j + 4;
    }
    let mut t: usize = whole;
    while t < n
        invariant
            whole <= t <= n,
            n == bgra@.len(),
            whole == n - n % 4,
            rgba@.len() == t,
            forall|k: int| 0 <= k < whole && k % 4 != 3 ==> #[trigger] rgba@[k] == rgba_byte(bgra@, k),
            forall|k: int| 0 <= k < whole && k % 4 == 3 ==> #[trigger] rgba@[k] == bgra@[k],
            forall|k: int| whole <= k < t ==> #[trigger] rgba@[k] == 0,
        decreases n - t,
    {
        rgba.push(0);
        t = t + 1;
    }
    if !saw_alpha {
        let mut a: usize = 3;
        while a < whole
            invariant
                n == bgra@.len(),
                whole == n - n % 4,
                rgba@.len() == n,
                a % 4 == 3,
                all_alpha_zero(bgra@),
                forall|k: int| 0 <= k < n && k % 4 != 3 ==> #[trigger] rgba@[k] == rgba_byte(bgra@, k),
                forall|k: int| 0 <= k < a && k % 4 == 3 && k < whole ==> #[trigger] rgba@[k] == 255,
                forall|k: int| a <= k < whole && k % 4 == 3 ==> #[trigger] rgba@[k] == bgra@[k],
                forall|k: int| whole <= k < n ==> #[trigger] rgba@[k] == 0,
            decreases whole + 3 - a,
        {
            rgba.set(a, 255);
            a = a + 4;
        }
    }
    rgba
}

/// Two to the power `e`.
pub open spec fn pow2(e: nat) -> nat
    decreases e,
{
    if e == 0 {
        1
    } else {
        2 * pow2((e - 1) as nat)
    }
}

/// The unit a size is shown in when none is asked for: the largest binary unit it reaches.
pub open spec fn spec_auto_size_unit(size: u64) -> SizeUnit {
    if size < 1024 {
        SizeUnit::Bytes
    } else if size < 1048576 {
        SizeUnit::KiB
    } else if size < 1073741824 {
        SizeUnit::MiB
    } else if size < 1099511627776 {
        SizeUnit::GiB
    } else {
        SizeUnit::TiB
    }
}

/// The unit a size is shown in when none is asked for.
pub fn auto_size_unit(size: u64) -> (r: SizeUnit)
    ensures
        r == spec_auto_size_unit(size),
{
    if size < 1024 {
        SizeUnit::Bytes
    } else if size < 1048576 {
        SizeUnit::KiB
    } else if size < 1073741824 {
        SizeUnit::MiB
    } else if size < 1099511627776 {
        SizeUnit::GiB
    } else {
        SizeUnit::TiB
    }
}

/// The power of two a unit divides by.
pub open spec fn unit_shift(u: SizeUnit) -> nat {
    match u {
        SizeUnit::Bytes => 0,
        SizeUnit::KiB => 10,
        SizeUnit::MiB => 20,
        SizeUnit::GiB => 30,
        SizeUnit::TiB => 40,
    }
}

/// The name a unit is printed with.
pub open spec fn unit_name(u: SizeUnit) -> Seq<char> {
    match u {
        SizeUnit::Bytes => "B"@,
        SizeUnit::KiB => "KiB"@,
        SizeUnit::MiB => "MiB"@,
        SizeUnit::GiB => "GiB"@,
        SizeUnit::TiB => "TiB"@,
    }
}

/// The binary exponent at which `size` keeps 53 significant bits: the least `e` from
/// `from` on with `size / 2^e < 2^53`.
pub open spec fn significand_shift(size: nat, from: nat) -> nat
    decreases 64 - from,
{
    if from >= 64 || size / pow2(from) < pow2(53) {
        from
    } else {
        significand_shift(size, from + 1)
    }
}

/// `size` as the nearest double-precision value: rounded to 53 significant bits, ties to
/// the even significand.
pub open spec fn nearest_double(size: nat) -> nat {
    let e = significand_shift(size, 0);
    if e == 0 {
        size
    } else {
        let q = size / pow2(e);
        let r = size % pow2(e);
        let half = pow2((e - 1) as nat);
        if r > half || (r == half && q % 2 == 1) {
            (q + 1) * pow2(e)
        } else {
            q * pow2(e)
        }
    }
}

/// `v / d` in hundredths, rounded to the nearest, ties to the even hundredth.
pub open spec fn rounded_hundredths(v: nat, d: nat) -> nat {
    let q = v * 100 / d;
    let r = v * 100 % d;
    if 2 * r > d || (2 * r == d && q % 2 == 1) {
        q + 1
    } else {
        q
    }
}

/// The decimal digit character of `d`.
pub open spec fn digit_char(d: nat) -> char {
    (('0' as u32) + d) as char
}

/// A count of hundredths written with two decimals.
pub open spec fn spec_two_decimals(h: nat) -> Seq<char> {
    spec_decimal(h / 100) + seq!['.', digit_char(h % 100 / 10), digit_char(h % 10)]
}

/// A byte size as text: plain bytes, or the size in the unit with two decimals (the size
/// taken as the nearest double, as std's formatting of a `f64` sees it, divided by the
/// unit and rounded half to even).
pub open spec fn spec_format_size(size: u64, unit: Option<SizeUnit>) -> Seq<char> {
    let u = match unit {
        Some(u) => u,
        None => spec_auto_size_unit(size),
    };
    match u {
        SizeUnit::Bytes => spec_decimal(size as nat) + " B"@,
        _ => spec_two_decimals(rounded_hundredths(nearest_double(size as nat), pow2(unit_shift(u))))
            + " "@ + unit_name(u),
    }
}

proof fn lemma_pow2_values()
    ensures
        pow2(0) == 1,
        pow2(10) == 1024,
        pow2(20) == 1048576,
        pow2(30) == 1073741824,
        pow2(40) == 1099511627776,
        pow2(53) == 9007199254740992,
        pow2(64) == 18446744073709551616,
{
    reveal_with_fuel(pow2, 65);
}

proof fn lemma_pow2_pos(e: nat)
    ensures
        pow2(e) > 0,
    decreases e,
{
    if e > 0 {
        lemma_pow2_pos((e - 1) as nat);
    }
}

fn pow2_exec(e: u32) -> (r: u128)
    requires
        e <= 64,
    ensures
        r == pow2(e as nat),
{
    let mut r: u128 = 1;
    let mut i: u32 = 0;
    while i < e
        invariant
            i <= e <= 64,
            r == pow2(i as nat),
        decreases e - i,
    {
        proof {
            lemma_pow2_monotone(i as nat, 64);
            lemma_pow2_values();
        }
        r = r * 2;
        i = i + 1;
    }
    r
}

proof fn lemma_pow2_monotone(a: nat, b: nat)
    requires
        a <= b,
    ensures
        pow2(a) <= pow2(b),
    decreases b - a,
{
    if a < b {
        lemma_pow2_monotone(a, (b - 1) as nat);
        lemma_pow2_pos((b - 1) as nat);
    }
}

/// `size` as the nearest double-precision value.
fn nearest_double_exec(size: u64) -> (r: u128)
    ensures
        r == nearest_double(size as nat),
{
    proof {
        lemma_pow2_values();
    }
    let mut e: u32 = 0;
    let mut scale: u128 = 1;
    let limit: u128 = 9007199254740992;
    while e < 64 && (size as u128) / scale >= limit
        invariant
            e <= 64,
            limit == pow2(53),
            scale == pow2(e as nat),
            scale > 0,
            significand_shift(size as nat, e as nat) == significand_shift(size as nat, 0),
        decreases 64 - e,
    {
        proof {
            lemma_pow2_monotone((e + 1) as nat, 64);
            lemma_pow2_values();
        }
        e = e + 1;
        scale = scale * 2;
    }
    assert(significand_shift(size as nat, e as nat) == e);
    if e == 0 {
        return size as u128;
    }
    let p = pow2_exec(e);
    proof {
        lemma_pow2_pos(e as nat);
        lemma_pow2_monotone(e as nat, 64);
        lemma_pow2_monotone((e - 1) as nat, 64);
        assert(pow2(e as nat) == 2 * pow2((e - 1) as nat));
    }
    let q = (size as u128) / p;
    let r = (size as u128) % p;
    let half = p / 2;
    assert(half == pow2((e - 1) as nat));
    assert(q <= size as u128) by (nonlinear_arith)
        requires q == (size as u128) / p, p > 0;
    assert(q * p <= size as u128) by (nonlinear_arith)
        requires q == (size as u128) / p, p > 0;
    if r > half || (r == half && q % 2 == 1) {
        assert((q + 1) * p <= 2 * (size as u128) + p) by (nonlinear_arith)
            requires q * p <= size as u128, p > 0;
        (q + 1) * p
    } else {
        q * p
    }
}

fn push_digit(out: &mut Vec<char>, d: u128)
    requires
        d < 10,
    ensures
        final(out)@ == old(out)@.push(digit_char(d as nat)),
{
    let c = (('0' as u8) + (d as u8)) as char;
    assert(c == digit_char(d as nat));
    out.push(c);
}

/// A byte size as text, in `unit` or, when none is given, in the largest binary unit the
/// size reaches: whole bytes as `"{size} B"`, other units with two decimals.
pub fn format_size(size: u64, unit: Option<SizeUnit>) -> (r: String)
    ensures
        r@ == spec_format_size(size, unit),
{
    let u = match unit {
        Some(u) => u,
        None => auto_size_unit(size),
    };
    let mut out: Vec<char> = Vec::new();
    proof {
        reveal_strlit(" B");
        reveal_strlit(" ");
    }
    match u {
        SizeUnit::Bytes => {
            push_decimal(&mut out, size);
            push_str(&mut out, " B");
        },
        _ => {
            let (shift, name): (u32, &str) = match u {
                SizeUnit::KiB => (10, "KiB"),
                SizeUnit::MiB => (20, "MiB"),
                SizeUnit::GiB => (30, "GiB"),
                _ => (40, "TiB"),
            };
            assert(shift == unit_shift(u) && name@ == unit_name(u));
            let v = nearest_double_exec(size);
            let d = pow2_exec(shift);
            proof {
                lemma_pow2_pos(shift as nat);
                lemma_pow2_monotone(shift as nat, 64);
                lemma_pow2_values();
                assert(v <= 2 * (size as nat) + pow2(64)) by {
                    lemma_nearest_double_bound(size as nat);
                }
            }
            let n = v * 100;
            let q = n / d;
            let rem = n % d;
            let h = if 2 * rem > d || (2 * rem == d && q % 2 == 1) {
                q + 1
            } else {
                q
            };
            assert(h == rounded_hundredths(v as nat, d as nat));
            proof {
                lemma_pow2_monotone(10, shift as nat);
            }
            assert(h / 100 <= u64::MAX) by (nonlinear_arith)
                requires h <= q + 1, q == n / d, d >= 1024, n == v * 100, v <= 2 * (size as nat) + 18446744073709551616, size <= u64::MAX;
            push_decimal(&mut out, (h / 100) as u64);
            out.push('.');
            push_digit(&mut out, (h % 100) / 10);
            push_digit(&mut out, h % 10);
            push_str(&mut out, " ");
            push_str(&mut out, name);
            assert(out@ =~= spec_two_decimals(h as nat) + " "@ + unit_name(u));
        },
    }
    string_from_chars(out.as_slice())
}

proof fn lemma_nearest_double_bound(size: nat)
    requires
        size <= u64::MAX,
    ensures
        nearest_double(size) <= 2 * size + pow2(64),
{
    lemma_pow2_values();
    let e = significand_shift(size, 0);
    if e > 0 {
        lemma_significand_shift_bound(size, 0);
        lemma_pow2_pos(e);
        lemma_pow2_monotone(e, 64);
        let q = size / pow2(e);
        let p = pow2(e);
        assert(q * p <= size) by (nonlinear_arith)
            requires q == size / p, p > 0;
        assert((q + 1) * p <= size + p) by (nonlinear_arith)
            requires q * p <= size;
    }
}

proof fn lemma_significand_shift_bound(size: nat, from: nat)
    requires
        from <= 64,
    ensures
        from <= significand_shift(size, from) <= 64,
    decreases 64 - from,
{
    if !(from >= 64 || size / pow2(from) < pow2(53)) {
        lemma_significand_shift_bound(size, from + 1);
    }
}


/// `c` with ASCII lower-case letters turned into upper-case ones.
pub open spec fn spec_ascii_upper(c: char) -> char {
    if 'a' <= c && c <= 'z' {
        ((c as u32) - 32) as char
    } else {
        c
    }
}

/// `s` in ASCII upper case, as `str::to_ascii_uppercase` gives it.
pub open spec fn spec_upper(s: Seq<char>) -> Seq<char> {
    s.map_values(|c: char| spec_ascii_upper(c))
}

fn upper_chars(v: &[char]) -> (r: Vec<char>)
    ensures
        r@ == spec_upper(v@),
{
    let mut out: Vec<char> = Vec::new();
    let mut i: usize = 0;
    while i < v.len()
        invariant
            i <= v@.len(),
            out@ == spec_upper(v@.take(i as int)),
        decreases v@.len() - i,
    {
        let c = v[i];
        let u = if 'a' <= c && c <= 'z' {
            let r = ((c as u8) - 32) as char;
            assert(r == ((c as u32) - 32) as char);
            r
        } else {
            c
        };
        out.push(u);
        i = i + 1;
        assert(spec_upper(v@.take(i as int)) =~= spec_upper(v@.take(i - 1)).push(spec_ascii_upper(v@[i - 1])));
    }
    assert(v@.take(i as int) =~= v@);
    out
}

/// Index of the last `.` in `s`, or -1 when there is none.
pub open spec fn last_dot(s: Seq<char>) -> int
    decreases s.len(),
{
    if s.len() == 0 {
        -1
    } else if s.last() == '.' {
        s.len() - 1
    } else {
        last_dot(s.drop_last())
    }
}

/// The stem of a file name, as `Path::file_stem` reads it: the name before its last dot,
/// or the whole name when it has no dot, starts with its only dot, or is `..`.
pub open spec fn spec_file_stem(name: Seq<char>) -> Seq<char> {
    let d = last_dot(name);
    if name == seq!['.', '.'] || d <= 0 {
        name
    } else {
        name.take(d)
    }
}

/// The name a file is shown with: its stem, or its whole name when the stem is empty.
pub open spec fn spec_display_name(name: Seq<char>) -> Seq<char> {
    if spec_file_stem(name).len() > 0 {
        spec_file_stem(name)
    } else {
        name
    }
}

pub(crate) proof fn lemma_last_dot_at(s: Seq<char>, j: int)
    requires
        -1 <= j < s.len(),
        j >= 0 ==> s[j] == '.',
        forall|k: int| j < k < s.len() ==> s[k] != '.',
    ensures
        last_dot(s) == j,
    decreases s.len(),
{
    if s.len() > 0 && s.len() - 1 != j {
        let t = s.drop_last();
        assert forall|k: int| j < k < t.len() implies t[k] != '.' by {
            assert(t[k] == s[k]);
        }
        if j >= 0 {
            assert(t[j] == s[j]);
        }
        lemma_last_dot_at(t, j);
    }
}

/// The name a file is shown with: its stem, or its whole name when the stem is empty.
pub fn display_name(name: &str) -> (r: String)
    ensures
        r@ == spec_display_name(name@),
{
    let cs = crate::text::chars_of(name);
    let n = cs.len();
    let mut j: usize = n;
    while j > 0 && cs[j - 1] != '.'
        invariant
            j <= n == cs@.len(),
            forall|k: int| j <= k < n ==> cs@[k] != '.',
        decreases j,
    {
        j = j - 1;
    }
    proof {
        lemma_last_dot_at(cs@, j - 1);
    }
    let is_dotdot = n == 2 && cs[0] == '.' && cs[1] == '.';
    proof {
        if n == 2 && cs@[0] == '.' && cs@[1] == '.' {
            assert(cs@ =~= seq!['.', '.']);
        }
        if cs@ =~= seq!['.', '.'] {
            assert(cs@[0] == '.' && cs@[1] == '.');
        }
    }
    if is_dotdot || j <= 1 {
        return name.to_owned();
    }
    let mut out: Vec<char> = Vec::new();
    let mut i: usize = 0;
    while i < j - 1
        invariant
            1 < j <= n == cs@.len(),
            i <= j - 1,
            out@ == cs@.take(i as int),
        decreases j - 1 - i,
    {
        out.push(cs[i]);
        i = i + 1;
        assert(out@ =~= cs@.take(i as int));
    }
    string_from_chars(out.as_slice())
}

/// The type label of a file: the label of the top analysis match, else the shell's type
/// label, the first of them that is not empty; else `"{EXT} File"` from the upper-cased
/// extension; else `"File"`.
pub open spec fn spec_file_type_name(
    top_label: Option<Seq<char>>,
    shell_label: Option<Seq<char>>,
    extension: Option<Seq<char>>,
) -> Seq<char> {
    if top_label matches Some(t) && t.len() > 0 {
        top_label->0
    } else if shell_label matches Some(s) && s.len() > 0 {
        shell_label->0
    } else {
        match extension {
            Some(e) => spec_upper(e) + " File"@,
            None => "File"@,
        }
    }
}

/// The texts of optional strings.
pub open spec fn opt_str_view(s: Option<&str>) -> Option<Seq<char>> {
    match s {
        Some(t) => Some(t@),
        None => None,
    }
}

/// The type label of a file, by the priority `spec_file_type_name` gives.
pub fn file_type_name(top_label: Option<&str>, shell_label: Option<&str>, extension: Option<&str>) -> (r:
    String)
    ensures
        r@ == spec_file_type_name(opt_str_view(top_label), opt_str_view(shell_label), opt_str_view(extension)),
{
    match top_label {
        Some(t) => {
            if !t.is_empty() {
                return t.to_owned();
            }
        },
        None => {},
    }
    match shell_label {
        Some(s) => {
            if !s.is_empty() {
                return s.to_owned();
            }
        },
        None => {},
    }
    match extension {
        Some(e) => {
            let cs = crate::text::chars_of(e);
            let mut out = upper_chars(cs.as_slice());
            push_str(&mut out, " File");
            string_from_chars(out.as_slice())
        },
        None => "File".to_owned(),
    }
}

/// The extension a file's information carries for its name: the name's extension,
/// trimmed, without leading dots and in ASCII lower case, or `None` when the name has no
/// extension or nothing is left of it.
pub fn filename_extension(name: &str) -> (r: Option<String>)
    ensures
        match extension_of(name@) {
            None => r is None,
            Some(e) => match r {
                Some(x) => spec_normalized_extension(e) == Some(x@),
                None => spec_normalized_extension(e) is None,
            },
        },
{
    let cs = crate::text::chars_of(name);
    match extension(cs.as_slice()) {
        None => None,
        Some(e) => normalized_extension(string_from_chars(e.as_slice()).as_str()),
    }
}

/// The type label of a directory: the shell's type label when it is not empty, else
/// `"Directory"`.
pub fn directory_type_name(shell_label: Option<&str>) -> (r: String)
    ensures
        r@ == (match shell_label {
            Some(s) => if s@.len() > 0 { s@ } else { "Directory"@ },
            None => "Directory"@,
        }),
{
    match shell_label {
        Some(s) => {
            if !s.is_empty() {
                return s.to_owned();
            }
        },
        None => {},
    }
    "Directory".to_owned()
}

} // verus!
