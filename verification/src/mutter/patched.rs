//! Deciding whether this mutter is safe to ask for a scaled mode.
//!
//! Stock mutter 50.4 crashes when `RecordVirtual` is given `modes`, and a locally
//! patched build carries the same version number as a stock one. So the rebuild
//! script records which package version it patched, and a scaled mode is asked for
//! only while the installed mutter is still that exact build and the running shell
//! has not kept an older library mapped.

use crate::text::{
    chars_eq, chars_of, find, lines, stands_at, string_of, text_eq, text_of, trim, trim_end,
};
use vstd::prelude::*;

verus! {

/// What follows the first line that is `key`: the next line. Both are taken
/// without the white space around them.
pub open spec fn field_of(lines: Seq<Seq<char>>, key: Seq<char>) -> Option<Seq<char>>
    decreases lines.len(),
{
    if lines.len() == 0 {
        None
    } else if crate::text::trimmed(lines.first()) == key {
        if lines.len() > 1 {
            Some(crate::text::trimmed(lines[1]))
        } else {
            None
        }
    } else {
        field_of(lines.drop_first(), key)
    }
}

/// The version that a package description gives, if the package is mutter itself.
pub open spec fn mutter_version_in(desc: Seq<char>) -> Option<Seq<char>> {
    let lines = crate::text::lines_of(desc);
    if field_of(lines, "%NAME%"@) == Some("mutter"@) {
        field_of(lines, "%VERSION%"@)
    } else {
        None
    }
}

/// The line after the one that is `key`.
fn field(lines: &Vec<Vec<char>>, key: &str) -> (value: Option<Vec<char>>)
    ensures
        match value {
            Some(v) => field_of(lines.deep_view(), key@) == Some(v@),
            None => field_of(lines.deep_view(), key@) is None,
        },
{
    let wanted = chars_of(key);
    let ghost all = lines.deep_view();
    let mut i: usize = 0;
    assert(all.skip(0) =~= all);
    while i < lines.len()
        invariant
            i <= lines@.len(),
            all == lines.deep_view(),
            wanted@ == key@,
            field_of(all, key@) == field_of(all.skip(i as int), key@),
        decreases lines@.len() - i,
    {
        assert(lines@[i as int].deep_view() =~= lines@[i as int]@);
        assert(all.skip(i as int).first() == lines@[i as int]@);
        if chars_eq(trim(lines[i].as_slice()), wanted.as_slice()) {
            if i + 1 < lines.len() {
                assert(lines@[i + 1].deep_view() =~= lines@[i + 1]@);
                assert(all.skip(i as int)[1] == lines@[i + 1]@);
                return Some(vstd::slice::slice_to_vec(trim(lines[i + 1].as_slice())));
            }
            return None;
        }
        assert(all.skip(i as int).drop_first() =~= all.skip(i + 1));
        i += 1;
    }
    assert(all.skip(i as int).len() == 0);
    None
}

/// Pulls `%VERSION%` out of a package description, but only for mutter itself:
/// `mutter-devkit` and friends share the prefix, so `%NAME%` is what decides.
pub fn version_of_mutter(desc: &str) -> (version: Option<String>)
    ensures
        match version {
            Some(v) => mutter_version_in(desc@) == Some(v@),
            None => mutter_version_in(desc@) is None,
        },
{
    let chars = chars_of(desc);
    let lines = lines(chars.as_slice());
    let wanted = chars_of("mutter");
    match field(&lines, "%NAME%") {
        Some(name) => {
            if !chars_eq(name.as_slice(), wanted.as_slice()) {
                return None;
            }
        },
        None => {
            return None;
        },
    }
    match field(&lines, "%VERSION%") {
        Some(version) => Some(string_of(version.as_slice())),
        None => None,
    }
}

/// One directory of the package database.
#[derive(Debug, Clone)]
pub struct PackageEntry {
    /// Name of the directory.
    pub name: String,
    /// What its description file holds, where it could be read.
    pub desc: Option<String>,
}

impl PackageEntry {
    /// The mutter version that this entry records.
    pub open spec fn mutter_version(self) -> Option<Seq<char>> {
        match self.desc {
            Some(desc) => if crate::text::starts_with(self.name@, "mutter-"@) {
                mutter_version_in(desc@)
            } else {
                None
            },
            None => None,
        }
    }
}

/// Whether a directory of the package database can describe mutter, so that its
/// description is worth reading.
pub fn may_describe_mutter(name: &str) -> (may: bool)
    ensures
        may == crate::text::starts_with(name@, "mutter-"@),
{
    let name = chars_of(name);
    let prefix = chars_of("mutter-");
    stands_at(name.as_slice(), prefix.as_slice(), 0)
}

/// The installed mutter version: that of the first entry which records one.
pub fn installed_version(entries: &Vec<PackageEntry>) -> (version: Option<String>)
    ensures
        match version {
            Some(v) => exists|i: int|
                {
                    &&& 0 <= i < entries@.len()
                    &&& (#[trigger] entries@[i]).mutter_version() == Some(v@)
                    &&& forall|j: int|
                        0 <= j < i ==> (#[trigger] entries@[j]).mutter_version() is None
                },
            None => forall|i: int|
                0 <= i < entries@.len() ==> (#[trigger] entries@[i]).mutter_version() is None,
        },
{
    let mut i: usize = 0;
    while i < entries.len()
        invariant
            i <= entries@.len(),
            forall|j: int| 0 <= j < i ==> (#[trigger] entries@[j]).mutter_version() is None,
        decreases entries@.len() - i,
    {
        let entry = &entries[i];
        if may_describe_mutter(entry.name.as_str()) {
            if let Some(desc) = &entry.desc {
                if let Some(version) = version_of_mutter(desc.as_str()) {
                    assert(entries@[i as int].mutter_version() == Some(version@));
                    return Some(version);
                }
            }
        }
        i += 1;
    }
    None
}

/// The version that the rebuild script recorded as patched; a blank record is none.
pub fn patched_version(record: &str) -> (version: Option<String>)
    ensures
        match version {
            Some(v) => v@ == crate::text::trimmed(record@) && v@.len() > 0,
            None => crate::text::trimmed(record@).len() == 0,
        },
{
    let record = chars_of(record);
    let version = trim(record.as_slice());
    if version.len() == 0 {
        None
    } else {
        Some(string_of(version))
    }
}

/// A line of a process's memory map that shows a libmutter which has been removed
/// from disk.
pub open spec fn shows_deleted_libmutter(line: Seq<char>) -> bool {
    &&& crate::text::contains(line, "libmutter-"@)
    &&& crate::text::ends_with(crate::text::trimmed_end(line), "(deleted)"@)
}

/// Whether the shell with this memory map still runs a libmutter that has since
/// been replaced on disk. Installing a patched package does not fix the compositor
/// that is already running: it keeps the old library mapped until the session
/// restarts.
pub fn running_shell_is_stale(maps: &str) -> (stale: bool)
    ensures
        stale == exists|i: int|
            0 <= i < crate::text::lines_of(maps@).len() && #[trigger] shows_deleted_libmutter(
                crate::text::lines_of(maps@)[i],
            ),
{
    let chars = chars_of(maps);
    let lines = lines(chars.as_slice());
    let library = chars_of("libmutter-");
    let mark = chars_of("(deleted)");
    let ghost all = crate::text::lines_of(maps@);
    let mut i: usize = 0;
    while i < lines.len()
        invariant
            i <= lines@.len(),
            all == lines.deep_view(),
            all == crate::text::lines_of(maps@),
            library@ == "libmutter-"@,
            mark@ == "(deleted)"@,
            forall|j: int| 0 <= j < i ==> !#[trigger] shows_deleted_libmutter(all[j]),
        decreases lines@.len() - i,
    {
        assert(lines@[i as int].deep_view() =~= lines@[i as int]@);
        assert(all[i as int] == lines@[i as int]@);
        let line = lines[i].as_slice();
        if find(line, library.as_slice()).is_some() {
            let kept = trim_end(line);
            if mark.len() <= kept.len() && stands_at(
                kept,
                mark.as_slice(),
                kept.len() - mark.len(),
            ) {
                assert(shows_deleted_libmutter(all[i as int]));
                return true;
            }
        }
        i += 1;
    }
    false
}

/// The number that decimal digits stand for.
pub open spec fn number_of(digits: Seq<char>) -> nat
    decreases digits.len(),
{
    if digits.len() == 0 {
        0
    } else {
        (number_of(digits.drop_last()) * 10 + (digits.last() as u32 - 48)) as nat
    }
}

pub open spec fn is_digit(c: char) -> bool {
    48 <= c as u32 <= 57
}

/// Nothing but digits.
pub open spec fn all_digits(text: Seq<char>) -> bool {
    forall|i: int| 0 <= i < text.len() ==> is_digit(#[trigger] text[i])
}

/// The process id that a directory name stands for: decimal digits, after an
/// optional plus sign, whose value fits 32 bits.
pub open spec fn pid_of(name: Seq<char>) -> Option<u32> {
    let digits = if name.len() > 0 && name.first() == '+' {
        name.drop_first()
    } else {
        name
    };
    if digits.len() > 0 && all_digits(digits) && number_of(digits) <= u32::MAX {
        Some(number_of(digits) as u32)
    } else {
        None
    }
}

proof fn lemma_number_grows(digits: Seq<char>, n: int)
    requires
        0 <= n <= digits.len(),
        all_digits(digits),
    ensures
        number_of(digits.take(n)) <= number_of(digits),
    decreases digits.len() - n,
{
    if n < digits.len() {
        lemma_number_grows(digits, n + 1);
        assert(digits.take(n + 1).drop_last() =~= digits.take(n));
        assert(is_digit(digits[n]));
    } else {
        assert(digits.take(n) =~= digits);
    }
}

/// Reads a directory name as a process id.
pub fn parse_pid(name: &str) -> (pid: Option<u32>)
    ensures
        pid == pid_of(name@),
{
    let chars = chars_of(name);
    let signed: bool = chars.len() > 0 && chars[0] == '+';
    let start: usize = if signed {
        1
    } else {
        0
    };
    let ghost digits = if signed {
        name@.drop_first()
    } else {
        name@
    };
    if chars.len() == start {
        return None;
    }
    let mut value: u32 = 0;
    let mut i: usize = start;
    while i < chars.len()
        invariant
            start <= i <= chars@.len(),
            start <= 1,
            chars@ == name@,
            digits == if name@.len() > 0 && name@.first() == '+' {
                name@.drop_first()
            } else {
                name@
            },
            digits.len() == chars@.len() - start,
            forall|j: int| 0 <= j < digits.len() ==> digits[j] == chars@[j + start],
            forall|j: int| 0 <= j < i - start ==> is_digit(#[trigger] digits[j]),
            value == number_of(digits.take(i - start)),
        decreases chars@.len() - i,
    {
        let c: u32 = chars[i] as u32;
        if c < 48 || c > 57 {
            assert(!is_digit(digits[i - start]));
            return None;
        }
        assert(is_digit(digits[i - start]));
        assert(digits.take(i - start + 1).drop_last() =~= digits.take(i - start));
        let next: u64 = value as u64 * 10 + (c - 48) as u64;
        if next > u32::MAX as u64 {
            proof {
                if all_digits(digits) {
                    lemma_number_grows(digits, i - start + 1);
                }
            }
            return None;
        }
        value = next as u32;
        i += 1;
    }
    assert(digits.take(i - start) =~= digits);
    Some(value)
}

/// One directory of the process table.
#[derive(Debug, Clone)]
pub struct ProcessEntry {
    /// Name of the directory.
    pub name: String,
    /// The process's command name; empty where it could not be read.
    pub comm: String,
}

impl ProcessEntry {
    pub open spec fn is_gnome_shell(self) -> bool {
        &&& pid_of(self.name@) is Some
        &&& crate::text::trimmed(self.comm@) == "gnome-shell"@
    }
}

/// The process id of the first process that is gnome-shell.
pub fn gnome_shell_pid(entries: &Vec<ProcessEntry>) -> (pid: Option<u32>)
    ensures
        match pid {
            Some(pid) => exists|i: int|
                {
                    &&& 0 <= i < entries@.len()
                    &&& (#[trigger] entries@[i]).is_gnome_shell()
                    &&& pid_of(entries@[i].name@) == Some(pid)
                    &&& forall|j: int| 0 <= j < i ==> !(#[trigger] entries@[j]).is_gnome_shell()
                },
            None => forall|i: int|
                0 <= i < entries@.len() ==> !(#[trigger] entries@[i]).is_gnome_shell(),
        },
{
    let shell = chars_of("gnome-shell");
    let mut i: usize = 0;
    while i < entries.len()
        invariant
            i <= entries@.len(),
            shell@ == "gnome-shell"@,
            forall|j: int| 0 <= j < i ==> !(#[trigger] entries@[j]).is_gnome_shell(),
        decreases entries@.len() - i,
    {
        let entry = &entries[i];
        if let Some(pid) = parse_pid(entry.name.as_str()) {
            let comm = chars_of(entry.comm.as_str());
            if chars_eq(trim(comm.as_slice()), shell.as_slice()) {
                assert(entries@[i as int].is_gnome_shell());
                return Some(pid);
            }
        }
        i += 1;
    }
    None
}

/// Why a scaled mode is or is not asked for.
#[derive(Debug, Clone, Copy, PartialEq, Eq, Structural)]
pub enum ModesVerdict {
    /// The user did not ask for it.
    NotRequested,
    /// mutter is patched and running.
    Allowed,
    /// The patched library is installed, but the running shell predates it.
    ShellIsStale,
    /// mutter has been replaced since it was patched.
    MutterChanged,
    /// No patched mutter is recorded.
    NothingPatched,
    /// The installed mutter is unknown.
    InstalledUnknown,
}

/// The verdict, from what the user requested, the recorded and the installed
/// version, and whether the running shell is stale.
pub open spec fn modes_verdict(
    request: Option<Seq<char>>,
    patched: Option<Seq<char>>,
    installed: Option<Seq<char>>,
    stale: bool,
) -> ModesVerdict {
    if request != Some("1"@) {
        ModesVerdict::NotRequested
    } else {
        match (patched, installed) {
            (Some(p), Some(i)) => if p != i {
                ModesVerdict::MutterChanged
            } else if stale {
                ModesVerdict::ShellIsStale
            } else {
                ModesVerdict::Allowed
            },
            (None, _) => ModesVerdict::NothingPatched,
            (Some(_), None) => ModesVerdict::InstalledUnknown,
        }
    }
}

/// Whether the mutter that runs is the one recorded as patched.
pub fn patched_mutter_is_running(
    patched: &Option<String>,
    installed: &Option<String>,
    stale: bool,
) -> (running: bool)
    ensures
        running == {
            &&& text_of(*patched) is Some
            &&& text_of(*patched) == text_of(*installed)
            &&& !stale
        },
{
    match (patched, installed) {
        (Some(p), Some(i)) => text_eq(p.as_str(), i.as_str()) && !stale,
        _ => false,
    }
}

/// Weighs up whether to ask mutter for a scaled mode, i.e. panel resolution with a
/// logical scale, and says why.
pub fn scaled_modes_verdict(
    request: &Option<String>,
    patched: &Option<String>,
    installed: &Option<String>,
    stale: bool,
) -> (verdict: ModesVerdict)
    ensures
        verdict == modes_verdict(text_of(*request), text_of(*patched), text_of(*installed), stale),
{
    let requested: bool = match request {
        Some(r) => text_eq(r.as_str(), "1"),
        None => false,
    };
    if !requested {
        return ModesVerdict::NotRequested;
    }
    match (patched, installed) {
        (Some(p), Some(i)) => {
            if !text_eq(p.as_str(), i.as_str()) {
                ModesVerdict::MutterChanged
            } else if stale {
                ModesVerdict::ShellIsStale
            } else {
                ModesVerdict::Allowed
            }
        },
        (None, _) => ModesVerdict::NothingPatched,
        (Some(_), None) => ModesVerdict::InstalledUnknown,
    }
}

/// A scaled mode is asked for on request only, and only of a mutter that is known to be
/// the patched one and to be running.
pub open spec fn modes_allowed(
    request: Option<Seq<char>>,
    patched: Option<Seq<char>>,
    installed: Option<Seq<char>>,
    stale: bool,
) -> bool {
    &&& request == Some("1"@)
    &&& patched is Some
    &&& patched == installed
    &&& !stale
}

/// Whether to ask mutter for a scaled mode.
pub fn scaled_modes_allowed(
    request: &Option<String>,
    patched: &Option<String>,
    installed: &Option<String>,
    stale: bool,
) -> (allowed: bool)
    ensures
        allowed == modes_allowed(
            text_of(*request),
            text_of(*patched),
            text_of(*installed),
            stale,
        ),
{
    match scaled_modes_verdict(request, patched, installed, stale) {
        ModesVerdict::Allowed => true,
        _ => false,
    }
}

/// The answer whether to ask mutter for a scaled mode, once it has been found.
#[derive(Debug, Clone, Copy, PartialEq, Eq, Structural)]
pub struct ScaledModes {
    pub kept: Option<bool>,
}

impl Default for ScaledModes {
    fn default() -> (modes: ScaledModes)
        ensures
            modes.kept is None,
    {
        ScaledModes { kept: None }
    }
}

impl ScaledModes {
    /// The answer that was found first, if any was.
    pub fn answer(&self) -> (kept: Option<bool>)
        ensures
            kept == self.kept,
    {
        self.kept
    }

    /// Whether to ask mutter for a scaled mode. The first answer lasts, whatever the
    /// request, the versions and the shell have become since.
    pub fn decide(
        &mut self,
        request: &Option<String>,
        patched: &Option<String>,
        installed: &Option<String>,
        stale: bool,
    ) -> (allowed: bool)
        ensures
            allowed == match old(self).kept {
                Some(first) => first,
                None => modes_allowed(
                    text_of(*request),
                    text_of(*patched),
                    text_of(*installed),
                    stale,
                ),
            },
            final(self).kept == Some(allowed),
            *final(self) == old(self).asked(
                (text_of(*request), text_of(*patched), text_of(*installed), stale),
            ),
    {
        match self.kept {
            Some(first) => first,
            None => {
                let allowed = scaled_modes_allowed(request, patched, installed, stale);
                self.kept = Some(allowed);
                allowed
            },
        }
    }

    /// Once it was asked.
    pub open spec fn asked(
        self,
        evidence: (Option<Seq<char>>, Option<Seq<char>>, Option<Seq<char>>, bool),
    ) -> ScaledModes {
        match self.kept {
            Some(_) => self,
            None => ScaledModes {
                kept: Some(modes_allowed(evidence.0, evidence.1, evidence.2, evidence.3)),
            },
        }
    }

    /// Once it was asked so often.
    pub open spec fn asked_all(
        self,
        evidence: Seq<(Option<Seq<char>>, Option<Seq<char>>, Option<Seq<char>>, bool)>,
    ) -> ScaledModes
        decreases evidence.len(),
    {
        if evidence.len() == 0 {
            self
        } else {
            self.asked_all(evidence.drop_last()).asked(evidence.last())
        }
    }
}

/// Every answer is the one that the evidence of the first question gave.
pub proof fn law_the_first_answer_lasts(
    evidence: Seq<(Option<Seq<char>>, Option<Seq<char>>, Option<Seq<char>>, bool)>,
)
    requires
        evidence.len() > 0,
    ensures
        (ScaledModes { kept: None }).asked_all(evidence).kept == Some(
            modes_allowed(evidence[0].0, evidence[0].1, evidence[0].2, evidence[0].3),
        ),
    decreases evidence.len(),
{
    reveal_with_fuel(ScaledModes::asked_all, 2);
    if evidence.len() > 1 {
        law_the_first_answer_lasts(evidence.drop_last());
    } else {
        assert(evidence.drop_last() =~= Seq::empty());
    }
}

/// An environment variable that holds a directory.
#[derive(Debug, Clone, Copy, PartialEq, Eq, Structural)]
pub enum DirVar {
    Unset,
    Empty,
    Named,
}

/// Where a per-user directory is found.
#[derive(Debug, Clone, Copy, PartialEq, Eq, Structural)]
pub enum UserDir {
    /// In the directory that the XDG variable names.
    Xdg,
    /// At its usual place under the home directory.
    UnderHome,
    /// Nowhere.
    Unknown,
}

/// Where a per-user directory is found. An XDG variable that is empty counts as unset.
pub open spec fn user_dir(xdg: DirVar, home: DirVar) -> UserDir {
    if xdg == DirVar::Named {
        UserDir::Xdg
    } else if home != DirVar::Unset {
        UserDir::UnderHome
    } else {
        UserDir::Unknown
    }
}

pub fn find_user_dir(xdg: DirVar, home: DirVar) -> (base: UserDir)
    ensures
        base == user_dir(xdg, home),
{
    if xdg == DirVar::Named {
        UserDir::Xdg
    } else if home == DirVar::Unset {
        UserDir::Unknown
    } else {
        UserDir::UnderHome
    }
}

/// The directory under which the record of the patched version lies.
pub fn marker_base(xdg_data_home: DirVar, home: DirVar) -> (base: UserDir)
    ensures
        base == user_dir(xdg_data_home, home),
{
    find_user_dir(xdg_data_home, home)
}

/// A system upgrade that replaces the patched package switches the scaled path off:
/// two builds with different version strings never match.
pub proof fn law_a_replaced_mutter_is_never_asked(
    request: Option<Seq<char>>,
    patched: Seq<char>,
    installed: Seq<char>,
    stale: bool,
)
    requires
        patched != installed,
    ensures
        modes_verdict(request, Some(patched), Some(installed), stale) != ModesVerdict::Allowed,
{
}

/// Without an explicit request nothing else can allow a scaled mode.
pub proof fn law_only_a_request_allows(
    request: Option<Seq<char>>,
    patched: Option<Seq<char>>,
    installed: Option<Seq<char>>,
    stale: bool,
)
    ensures
        modes_verdict(request, patched, installed, stale) == ModesVerdict::Allowed ==> request
            == Some("1"@) && !stale && patched is Some && patched == installed,
{
}

/// The line at `i` is the first that is `key`, and `value` is the one behind it; both
/// without the white space around them.
pub open spec fn follows_key(
    lines: Seq<Seq<char>>,
    key: Seq<char>,
    value: Seq<char>,
    i: int,
) -> bool {
    &&& 0 <= i < lines.len() - 1
    &&& crate::text::trimmed(lines[i]) == key
    &&& crate::text::trimmed(lines[i + 1]) == value
    &&& forall|j: int| 0 <= j < i ==> crate::text::trimmed(#[trigger] lines[j]) != key
}

proof fn lemma_field(lines: Seq<Seq<char>>, key: Seq<char>, value: Seq<char>)
    ensures
        field_of(lines, key) == Some(value) <==> exists|i: int| follows_key(lines, key, value, i),
    decreases lines.len(),
{
    if lines.len() > 0 {
        let rest = lines.drop_first();
        lemma_field(rest, key, value);
        if crate::text::trimmed(lines.first()) == key {
            if field_of(lines, key) == Some(value) {
                assert(follows_key(lines, key, value, 0));
            }
            if exists|i: int| follows_key(lines, key, value, i) {
                let i = choose|i: int| follows_key(lines, key, value, i);
                if i > 0 {
                    assert(crate::text::trimmed(lines[0]) != key);
                }
            }
        } else {
            if field_of(rest, key) == Some(value) {
                let i = choose|i: int| follows_key(rest, key, value, i);
                assert(rest[i] == lines[i + 1] && rest[i + 1] == lines[i + 2]);
                assert forall|j: int| 0 <= j < i + 1 implies crate::text::trimmed(
                    #[trigger] lines[j],
                ) != key by {
                    if j > 0 {
                        assert(rest[j - 1] == lines[j]);
                    }
                }
                assert(follows_key(lines, key, value, i + 1));
            }
            if exists|i: int| follows_key(lines, key, value, i) {
                let i = choose|i: int| follows_key(lines, key, value, i);
                assert(i > 0);
                assert(rest[i - 1] == lines[i] && rest[i] == lines[i + 1]);
                assert forall|j: int| 0 <= j < i - 1 implies crate::text::trimmed(
                    #[trigger] rest[j],
                ) != key by {
                    assert(rest[j] == lines[j + 1]);
                }
                assert(follows_key(rest, key, value, i - 1));
            }
        }
    }
}

/// A description gives a version exactly where the line after its first `%NAME%` is
/// `mutter`, and the version is the line after its first `%VERSION%`.
pub proof fn law_only_mutter_itself_has_a_version(desc: Seq<char>, version: Seq<char>)
    ensures
        mutter_version_in(desc) == Some(version) <==> {
            &&& exists|i: int|
                follows_key(crate::text::lines_of(desc), "%NAME%"@, "mutter"@, i)
            &&& exists|i: int|
                follows_key(crate::text::lines_of(desc), "%VERSION%"@, version, i)
        },
{
    let lines = crate::text::lines_of(desc);
    lemma_field(lines, "%NAME%"@, "mutter"@);
    lemma_field(lines, "%VERSION%"@, version);
}

/// A process id that is written in decimal is read back, with a plus sign or without.
pub proof fn law_process_ids_are_read_back(n: u32)
    ensures
        pid_of(crate::text::decimal(n as nat)) == Some(n),
        pid_of(seq!['+'] + crate::text::decimal(n as nat)) == Some(n),
{
    let digits = crate::text::decimal(n as nat);
    crate::text::law_decimals_read_as_their_number(n as nat);
    lemma_number_of(digits);
    assert(digits[0] != '+');
    assert((seq!['+'] + digits).drop_first() =~= digits);
    assert forall|i: int| 0 <= i < digits.len() implies is_digit(#[trigger] digits[i]) by {
        assert('0' <= digits[i] <= '9');
    }
}

proof fn lemma_number_of(digits: Seq<char>)
    ensures
        number_of(digits) == crate::text::numeral(digits, 10),
    decreases digits.len(),
{
    if digits.len() > 0 {
        lemma_number_of(digits.drop_last());
    }
}

/// What is read as a process id is that number in decimal digits, after a plus sign at
/// most; nothing else is read as one.
pub proof fn law_only_numbers_are_process_ids(name: Seq<char>)
    ensures
        pid_of(name) matches Some(pid) ==> ({
            let digits = if name[0] == '+' {
                name.skip(1)
            } else {
                name
            };
            &&& name.len() > 0 && digits.len() > 0
            &&& crate::text::numeral(digits, 10) == pid
            &&& forall|i: int| 0 <= i < digits.len() ==> 48 <= (#[trigger] digits[i]) as u32 <= 57
        }),
{
    if pid_of(name) is Some {
        let digits = if name[0] == '+' {
            name.skip(1)
        } else {
            name
        };
        assert(name.len() > 0);
        assert(name.drop_first() =~= name.skip(1));
        assert(all_digits(digits));
        lemma_number_of(digits);
        assert forall|i: int| 0 <= i < digits.len() implies 48 <= (#[trigger] digits[i]) as u32 <= 57 by {
            assert(is_digit(digits[i]));
        }
    }
}

/// The verdict names the first thing that stands in the way, and allows where nothing
/// does: no request, nothing recorded as patched, nothing known to be installed, another
/// build installed, and a shell that still runs the old one.
pub proof fn law_the_verdict_names_what_stands_in_the_way(
    request: Option<Seq<char>>,
    patched: Option<Seq<char>>,
    installed: Option<Seq<char>>,
    stale: bool,
)
    ensures
        ({
            let verdict = modes_verdict(request, patched, installed, stale);
            let asked = request == Some("1"@);
            &&& verdict == ModesVerdict::Allowed <==> asked && patched is Some && patched
                == installed && !stale
            &&& verdict == ModesVerdict::NotRequested <==> !asked
            &&& verdict == ModesVerdict::NothingPatched <==> asked && patched is None
            &&& verdict == ModesVerdict::InstalledUnknown <==> asked && patched is Some
                && installed is None
            &&& verdict == ModesVerdict::MutterChanged <==> asked && patched is Some
                && installed is Some && patched != installed
            &&& verdict == ModesVerdict::ShellIsStale <==> asked && patched is Some && patched
                == installed && stale
        }),
        modes_allowed(request, patched, installed, stale) <==> modes_verdict(
            request,
            patched,
            installed,
            stale,
        ) == ModesVerdict::Allowed,
{
}

/// An XDG variable counts where it names a directory; otherwise the home directory does,
/// where there is one.
pub proof fn law_an_empty_variable_counts_as_unset(xdg: DirVar, home: DirVar)
    ensures
        user_dir(xdg, home) == UserDir::Xdg <==> xdg == DirVar::Named,
        user_dir(xdg, home) == UserDir::UnderHome <==> xdg != DirVar::Named && home != DirVar::Unset,
        user_dir(xdg, home) == UserDir::Unknown <==> xdg != DirVar::Named && home == DirVar::Unset,
{
}

/// A library counts as replaced where its line ends in the kernel's mark for that; spaces
/// at its end do not matter.
pub proof fn law_a_replaced_library_is_marked(line: Seq<char>, a: int)
    requires
        0 <= a <= line.len(),
        a > 0 ==> !crate::text::is_white_space(line[a - 1]),
        forall|i: int| a <= i < line.len() ==> crate::text::is_white_space(#[trigger] line[i]),
    ensures
        shows_deleted_libmutter(line) <==> {
            &&& crate::text::contains(line, "libmutter-"@)
            &&& a >= 9 && line.subrange(a - 9, a) == "(deleted)"@
        },
{
    reveal_strlit("(deleted)");
    crate::text::law_the_end_is_trimmed(line, a);
    let kept = line.take(a);
    if a >= 9 {
        assert(kept.subrange(a - 9, a) =~= line.subrange(a - 9, a));
    }
}

/// An entry of the package database records a version of mutter where its name starts so
/// and its description gives one; the shell is the process of that name.
pub proof fn law_entries_are_known_by_name(package: PackageEntry, process: ProcessEntry)
    ensures
        package.mutter_version() == if package.desc is Some && crate::text::occurs_at(
            package.name@,
            "mutter-"@,
            0,
        ) {
            mutter_version_in(package.desc->0@)
        } else {
            None
        },
        process.is_gnome_shell() <==> pid_of(process.name@) is Some && crate::text::trimmed(
            process.comm@,
        ) == "gnome-shell"@,
{
}

} // verus!
