//! The updater's version logic.
//!
//! [`AppVersion`] is a three-part version with exact parsing, rendering
//! and comparison contracts. [`UpdateManager`] decides from a release
//! description — fetched by the hosting layer — whether a newer release
//! exists and what to download; the JSON itself is read through
//! `serde_json`, held behind trusted declarations, and the decision on
//! the extracted fields is verified in [`UpdateManager::evaluate_release`].

use vstd::prelude::*;
use vstd::string::{StrSliceExecFns, StringExecFns};
use crate::decimal::{
    digits_val, is_digit, is_number, is_u32_numeral, parse_u32, spec_decimal, u32_to_decimal,
};

verus! {

/// Why a version text was rejected.
#[derive(Debug, Clone, Copy, PartialEq, Eq, Structural)]
pub enum VersionError {
    /// The text does not consist of exactly three dot-separated parts.
    InvalidFormat,
    /// The first part is not a number a `u32` can hold.
    InvalidMajor,
    /// The second part is not a number a `u32` can hold.
    InvalidMinor,
    /// The third part is not a number a `u32` can hold.
    InvalidPatch,
}

/// Why no update decision could be made from a release description.
#[derive(Debug, Clone, Copy, PartialEq, Eq, Structural)]
pub enum UpdateError {
    /// The release description is not valid JSON.
    InvalidResponse,
    /// The release description names no tag.
    MissingTag,
    /// The tag does not name a version.
    InvalidVersion(VersionError),
    /// A newer release offers nothing to download.
    MissingDownloadUrl,
}

/// A release that is newer than the running application.
#[derive(Debug, Clone, PartialEq, Eq)]
pub struct UpdateInfo {
    /// The release's version, rendered as its three-part text.
    pub version: String,
    /// Where the release's artifact can be downloaded.
    pub download_url: String,
    /// The release's notes, or a stock line where it has none.
    pub changelog: String,
    /// Whether the release must be installed; never claimed here.
    pub mandatory: bool,
}

/// A three-part application version.
#[derive(Debug, Clone, Copy, PartialEq, Eq, Structural)]
pub struct AppVersion {
    /// The major part.
    pub major: u32,
    /// The minor part.
    pub minor: u32,
    /// The patch part.
    pub patch: u32,
}

/// The index of the first `c` in `s`, if any.
pub open spec fn find_char(s: Seq<char>, c: char) -> Option<int>
    decreases s.len(),
{
    if s.len() == 0 {
        None
    } else if s[0] == c {
        Some(0int)
    } else {
        match find_char(s.skip(1), c) {
            Some(i) => Some(i + 1),
            None => None,
        }
    }
}

/// An occurrence at `j` preceded by none is the one `find_char` finds.
pub proof fn lemma_find_char_at(s: Seq<char>, c: char, j: int)
    requires
        0 <= j < s.len(),
        s[j] == c,
        forall|i: int| 0 <= i < j ==> s[i] != c,
    ensures
        find_char(s, c) == Some(j),
    decreases j,
{
    if j == 0 {
    } else {
        assert(s[0] != c);
        assert(s.skip(1)[j - 1] == s[j]);
        assert forall|i: int| 0 <= i < j - 1 implies s.skip(1)[i] != c by {
            assert(s.skip(1)[i] == s[i + 1]);
        }
        lemma_find_char_at(s.skip(1), c, j - 1);
    }
}

/// No occurrence anywhere means `find_char` finds none.
pub proof fn lemma_find_char_absent(s: Seq<char>, c: char)
    requires
        forall|i: int| 0 <= i < s.len() ==> s[i] != c,
    ensures
        find_char(s, c) == None::<int>,
    decreases s.len(),
{
    if s.len() == 0 {
    } else {
        assert forall|i: int| 0 <= i < s.len() - 1 implies s.skip(1)[i] != c by {
            assert(s.skip(1)[i] == s[i + 1]);
        }
        lemma_find_char_absent(s.skip(1), c);
    }
}

/// What a version text names: split at the first dot, split the rest at
/// its first dot, insist no dot remains, and read each of the three
/// parts as a `u32` numeral. The first failing step names the error.
pub open spec fn spec_parse_version(s: Seq<char>) -> Result<AppVersion, VersionError> {
    match find_char(s, '.') {
        None => Err(VersionError::InvalidFormat),
        Some(i) => {
            let rest = s.skip(i + 1);
            match find_char(rest, '.') {
                None => Err(VersionError::InvalidFormat),
                Some(j) => {
                    let part0 = s.take(i);
                    let part1 = rest.take(j);
                    let part2 = rest.skip(j + 1);
                    if find_char(part2, '.') is Some {
                        Err(VersionError::InvalidFormat)
                    } else if !is_u32_numeral(part0) {
                        Err(VersionError::InvalidMajor)
                    } else if !is_u32_numeral(part1) {
                        Err(VersionError::InvalidMinor)
                    } else if !is_u32_numeral(part2) {
                        Err(VersionError::InvalidPatch)
                    } else {
                        Ok(
                            AppVersion {
                                major: digits_val(part0) as u32,
                                minor: digits_val(part1) as u32,
                                patch: digits_val(part2) as u32,
                            },
                        )
                    }
                }
            }
        }
    }
}

/// The text of a version: the three parts in decimal, dot-separated.
pub open spec fn spec_version_text(v: AppVersion) -> Seq<char> {
    spec_decimal(v.major as nat) + seq!['.'] + spec_decimal(v.minor as nat) + seq!['.']
        + spec_decimal(v.patch as nat)
}

/// Whether `a` names a strictly later version than `b`, part by part.
pub open spec fn spec_version_newer(a: AppVersion, b: AppVersion) -> bool {
    ||| a.major > b.major
    ||| (a.major == b.major && a.minor > b.minor)
    ||| (a.major == b.major && a.minor == b.minor && a.patch > b.patch)
}

/// A leading `v` taken off a tag, where one stands.
pub open spec fn spec_strip_v(s: Seq<char>) -> Seq<char> {
    if s.len() > 0 && s[0] == 'v' {
        s.skip(1)
    } else {
        s
    }
}

/// In a digit run followed by a dot, the dot right after the run is the
/// first one, and splitting there recovers the run and the remainder.
proof fn lemma_first_dot_after_number(s: Seq<char>, num: Seq<char>, rest: Seq<char>)
    requires
        s == num + seq!['.'] + rest,
        is_number(num),
    ensures
        find_char(s, '.') == Some(num.len() as int),
        s.take(num.len() as int) =~= num,
        s.skip(num.len() as int + 1) =~= rest,
{
    let j = num.len() as int;
    assert(s.len() == num.len() + 1 + rest.len());
    assert(s[j] == (num + seq!['.'])[j]);
    assert(s[j] == '.');
    assert forall|i: int| 0 <= i < j implies s[i] != '.' by {
        assert(s[i] == num[i]);
        assert(is_digit(num[i]));
    }
    lemma_find_char_at(s, '.', j);
    assert forall|i: int| 0 <= i < rest.len() implies s.skip(j + 1)[i] == rest[i] by {
        assert(s.skip(j + 1)[i] == s[i + j + 1]);
    }
}

/// The least index at or after `start` where `s` holds a dot.
fn find_dot_from(s: &str, start: usize, n: usize) -> (r: Option<usize>)
    requires
        n == s@.len(),
        start <= n,
    ensures
        match r {
            Some(d) => start <= d < n && s@[d as int] == '.' && forall|i: int|
                start <= i < d ==> s@[i] != '.',
            None => forall|i: int| start <= i < n ==> s@[i] != '.',
        },
{
    let mut k: usize = start;
    while k < n
        invariant
            n == s@.len(),
            start <= k <= n,
            forall|i: int| start <= i < k ==> s@[i] != '.',
        decreases n - k,
    {
        if s.get_char(k) == '.' {
            return Some(k);
        }
        k += 1;
    }
    None
}

impl AppVersion {
    /// A version from its three parts.
    pub fn new(major: u32, minor: u32, patch: u32) -> (v: Self)
        ensures
            v == (AppVersion { major, minor, patch }),
    {
        AppVersion { major, minor, patch }
    }

    /// Reads a version from its dot-separated text, exactly as
    /// [`spec_parse_version`] says.
    pub fn from_string(version_str: &str) -> (r: Result<Self, VersionError>)
        ensures
            r == spec_parse_version(version_str@),
    {
        let n = version_str.unicode_len();
        let d0 = match find_dot_from(version_str, 0, n) {
            None => {
                proof {
                    lemma_find_char_absent(version_str@, '.');
                }
                return Err(VersionError::InvalidFormat);
            },
            Some(d) => d,
        };
        proof {
            lemma_find_char_at(version_str@, '.', d0 as int);
        }
        let ghost rest = version_str@.skip(d0 as int + 1);
        let d1 = match find_dot_from(version_str, d0 + 1, n) {
            None => {
                proof {
                    assert forall|i: int| 0 <= i < rest.len() implies rest[i] != '.' by {
                        assert(rest[i] == version_str@[i + d0 + 1]);
                    }
                    lemma_find_char_absent(rest, '.');
                }
                return Err(VersionError::InvalidFormat);
            },
            Some(d) => d,
        };
        proof {
            assert(rest[d1 - d0 - 1] == version_str@[d1 as int]);
            assert forall|i: int| 0 <= i < d1 - d0 - 1 implies rest[i] != '.' by {
                assert(rest[i] == version_str@[i + d0 + 1]);
            }
            lemma_find_char_at(rest, '.', d1 - d0 - 1);
        }
        let ghost part2 = rest.skip(d1 - d0 as int);
        proof {
            assert(part2 =~= version_str@.skip(d1 as int + 1));
        }
        match find_dot_from(version_str, d1 + 1, n) {
            Some(d2) => {
                proof {
                    assert(part2[d2 - d1 - 1] == version_str@[d2 as int]);
                    assert forall|i: int| 0 <= i < d2 - d1 - 1 implies part2[i] != '.' by {
                        assert(part2[i] == version_str@[i + d1 + 1]);
                    }
                    lemma_find_char_at(part2, '.', d2 - d1 - 1);
                }
                return Err(VersionError::InvalidFormat);
            },
            None => {
                proof {
                    assert forall|i: int| 0 <= i < part2.len() implies part2[i] != '.' by {
                        assert(part2[i] == version_str@[i + d1 + 1]);
                    }
                    lemma_find_char_absent(part2, '.');
                }
            },
        }
        let text0 = version_str.substring_char(0, d0);
        let text1 = version_str.substring_char(d0 + 1, d1);
        let text2 = version_str.substring_char(d1 + 1, n);
        proof {
            assert(text0@ =~= version_str@.take(d0 as int));
            assert(text1@ =~= rest.take(d1 - d0 - 1));
            assert(text2@ =~= part2);
        }
        let major = match parse_u32(text0) {
            None => {
                return Err(VersionError::InvalidMajor);
            },
            Some(v) => v,
        };
        let minor = match parse_u32(text1) {
            None => {
                return Err(VersionError::InvalidMinor);
            },
            Some(v) => v,
        };
        let patch = match parse_u32(text2) {
            None => {
                return Err(VersionError::InvalidPatch);
            },
            Some(v) => v,
        };
        Ok(AppVersion { major, minor, patch })
    }

    /// Renders the version as its dot-separated decimal text.
    pub fn to_string(&self) -> (s: String)
        ensures
            s@ == spec_version_text(*self),
    {
        let s = u32_to_decimal(self.major).concat(".").concat(
            u32_to_decimal(self.minor).as_str(),
        ).concat(".").concat(u32_to_decimal(self.patch).as_str());
        proof {
            reveal_strlit(".");
            assert(s@ =~= spec_version_text(*self));
        }
        s
    }

    /// Whether this version is strictly later than `other`, comparing
    /// major, then minor, then patch.
    pub fn is_newer_than(&self, other: &AppVersion) -> (b: bool)
        ensures
            b == spec_version_newer(*self, *other),
    {
        if self.major > other.major {
            return true;
        }
        if self.major == other.major && self.minor > other.minor {
            return true;
        }
        if self.major == other.major && self.minor == other.minor && self.patch > other.patch {
            return true;
        }
        false
    }
}

/// `serde_json::Value`, held opaquely so a release description can pass
/// through verified code.
#[verifier::external_type_specification]
#[verifier::external_body]
pub struct ExValue(serde_json::Value);

/// Relies on serde_json::from_str: reads one JSON document from text,
/// and fails exactly where the text is not such a document.
#[verifier::external_body]
fn json_parse(text: &str) -> Option<serde_json::Value> {
    serde_json::from_str(text).ok()
}

/// Relies on serde_json::Value::get with a string index: the value under
/// `key` where `v` is an object that has one, else nothing.
#[verifier::external_body]
fn json_member<'a>(v: &'a serde_json::Value, key: &str) -> Option<&'a serde_json::Value> {
    v.get(key)
}

/// Relies on serde_json::Value::get with a numeric index: the element at
/// `index` where `v` is an array that long, else nothing.
#[verifier::external_body]
fn json_element<'a>(v: &'a serde_json::Value, index: usize) -> Option<&'a serde_json::Value> {
    v.get(index)
}

/// Relies on serde_json::Value::as_str: the text where `v` is a JSON
/// string, else nothing.
#[verifier::external_body]
fn json_string(v: &serde_json::Value) -> Option<String> {
    match v.as_str() {
        Some(s) => Some(s.to_string()),
        None => None,
    }
}

/// The text under `key`, where `v` is an object holding a string there.
fn json_member_text(v: &serde_json::Value, key: &str) -> Option<String> {
    match json_member(v, key) {
        Some(m) => json_string(m),
        None => None,
    }
}

/// Decides on updates for one running version.
pub struct UpdateManager {
    current_version: AppVersion,
    update_url: String,
}

impl UpdateManager {
    /// The version the manager compares releases against.
    pub closed spec fn current_version(&self) -> AppVersion {
        self.current_version
    }

    /// Where the hosting layer fetches the latest release description.
    pub closed spec fn update_url(&self) -> Seq<char> {
        self.update_url@
    }

    /// A manager for the given running version, pointed at the
    /// project's latest-release feed.
    pub fn new(current_version: AppVersion) -> (m: Self)
        ensures
            m.current_version() == current_version,
            m.update_url() == "https://api.github.com/repos/ggrp-byte/HyperVolume/releases/latest"@,
    {
        UpdateManager {
            current_version,
            update_url: String::from_str(
                "https://api.github.com/repos/ggrp-byte/HyperVolume/releases/latest",
            ),
        }
    }

    /// Decides from a fetched release description whether a newer
    /// release exists: reads the tag, the first artifact's address and
    /// the notes out of the JSON, and hands them to
    /// [`UpdateManager::evaluate_release`]. Whatever the description
    /// held, a release is only ever announced with its exact version
    /// text, strictly newer than the running version, and not mandatory.
    pub fn check_for_updates(&self, release_json: &str) -> (r: Result<Option<UpdateInfo>,
        UpdateError>)
        ensures
            r matches Ok(Some(info)) ==> info.mandatory == false && (exists|remote: AppVersion|
                #[trigger] spec_version_text(remote) == info.version@ && spec_version_newer(
                    remote,
                    self.current_version(),
                )),
    {
        let parsed = match json_parse(release_json) {
            None => {
                return Err(UpdateError::InvalidResponse);
            },
            Some(v) => v,
        };
        let tag_name = json_member_text(&parsed, "tag_name");
        let download_url = match json_member(&parsed, "assets") {
            Some(assets) => match json_element(assets, 0) {
                Some(first) => json_member_text(first, "browser_download_url"),
                None => None,
            },
            None => None,
        };
        let changelog = json_member_text(&parsed, "body");
        self.evaluate_release(tag_name, download_url, changelog)
    }

    /// Decides from the extracted release fields: the tag, less a
    /// leading `v`, must name a version; only a strictly newer one is an
    /// update, and it must offer an artifact; missing notes get a stock
    /// line. Each failing step names its error, and an older or equal
    /// release is simply no update.
    pub fn evaluate_release(
        &self,
        tag_name: Option<String>,
        download_url: Option<String>,
        changelog: Option<String>,
    ) -> (r: Result<Option<UpdateInfo>, UpdateError>)
        ensures
            match tag_name {
                None => r == Err::<Option<UpdateInfo>, UpdateError>(UpdateError::MissingTag),
                Some(tag) => match spec_parse_version(spec_strip_v(tag@)) {
                    Err(e) => r == Err::<Option<UpdateInfo>, UpdateError>(
                        UpdateError::InvalidVersion(e),
                    ),
                    Ok(remote) => {
                        if spec_version_newer(remote, self.current_version()) {
                            match download_url {
                                None => r == Err::<Option<UpdateInfo>, UpdateError>(
                                    UpdateError::MissingDownloadUrl,
                                ),
                                Some(u) => r matches Ok(Some(info)) && info.version@
                                    == spec_version_text(remote) && info.download_url == u
                                    && info.mandatory == false && info.changelog@ == (
                                match changelog {
                                    Some(c) => c@,
                                    None => "No changelog available"@,
                                }),
                            }
                        } else {
                            r == Ok::<Option<UpdateInfo>, UpdateError>(None::<UpdateInfo>)
                        }
                    },
                },
            },
            r matches Ok(Some(info)) ==> info.mandatory == false && (exists|remote: AppVersion|
                #[trigger] spec_version_text(remote) == info.version@ && spec_version_newer(
                    remote,
                    self.current_version(),
                )),
    {
        let tag = match tag_name {
            None => {
                return Err(UpdateError::MissingTag);
            },
            Some(t) => t,
        };
        let tag_len = tag.as_str().unicode_len();
        let stripped: &str = if tag_len > 0 && tag.as_str().get_char(0) == 'v' {
            let t = tag.as_str().substring_char(1, tag_len);
            proof {
                assert(t@ =~= spec_strip_v(tag@));
            }
            t
        } else {
            tag.as_str()
        };
        let remote = match AppVersion::from_string(stripped) {
            Err(e) => {
                return Err(UpdateError::InvalidVersion(e));
            },
            Ok(v) => v,
        };
        if remote.is_newer_than(&self.current_version) {
            let url = match download_url {
                None => {
                    return Err(UpdateError::MissingDownloadUrl);
                },
                Some(u) => u,
            };
            let changelog_text = match changelog {
                Some(c) => c,
                None => String::from_str("No changelog available"),
            };
            let info = UpdateInfo {
                version: remote.to_string(),
                download_url: url,
                changelog: changelog_text,
                mandatory: false,
            };
            Ok(Some(info))
        } else {
            Ok(None)
        }
    }
}

/// Rendering and reading are inverse: the text of any version parses
/// back to that very version.
pub proof fn lemma_version_text_round_trip(v: AppVersion)
    ensures
        spec_parse_version(spec_version_text(v)) == Ok::<AppVersion, VersionError>(v),
{
    let d0 = spec_decimal(v.major as nat);
    let d1 = spec_decimal(v.minor as nat);
    let d2 = spec_decimal(v.patch as nat);
    crate::decimal::lemma_decimal_value(v.major as nat);
    crate::decimal::lemma_decimal_value(v.minor as nat);
    crate::decimal::lemma_decimal_value(v.patch as nat);
    let s = spec_version_text(v);
    assert(s == d0 + seq!['.'] + (d1 + seq!['.'] + d2)) by {
        assert(s =~= d0 + seq!['.'] + (d1 + seq!['.'] + d2));
    }
    lemma_first_dot_after_number(s, d0, d1 + seq!['.'] + d2);
    let rest = s.skip(d0.len() as int + 1);
    lemma_first_dot_after_number(rest, d1, d2);
    let part2 = rest.skip(d1.len() as int + 1);
    assert forall|i: int| 0 <= i < part2.len() implies part2[i] != '.' by {
        assert(part2[i] == d2[i]);
        assert(is_digit(d2[i]));
    }
    lemma_find_char_absent(part2, '.');
    assert(digits_val(s.take(d0.len() as int)) == v.major as nat);
    assert(digits_val(rest.take(d1.len() as int)) == v.minor as nat);
    assert(digits_val(part2) == v.patch as nat);
}

/// The batch script that waits a moment, relaunches `current_exe`, and
/// deletes itself.
pub fn restart_script(current_exe: &str) -> (s: String)
    ensures
        s@ == "@echo off\ntimeout /t 3 /nobreak > nul\nstart \"\" \""@ + current_exe@
            + "\"\ndel \"%~f0\""@,
{
    String::from_str("@echo off\ntimeout /t 3 /nobreak > nul\nstart \"\" \"").concat(
        current_exe,
    ).concat("\"\ndel \"%~f0\"")
}

/// The updater's stored preferences.
#[derive(Debug, Clone, Copy, PartialEq, Eq, Structural)]
pub struct UpdateConfig {
    /// Whether to look for updates on a schedule.
    pub auto_check: bool,
    /// How many hours to wait between checks.
    pub check_interval_hours: u64,
    /// Whether to download a found update without asking.
    pub auto_download: bool,
    /// Whether to install a downloaded update without asking.
    pub auto_install: bool,
}

impl Default for UpdateConfig {
    /// Check daily and download freely, but let the user confirm every
    /// installation.
    fn default() -> (c: Self)
        ensures
            c.auto_check == true,
            c.check_interval_hours == 24,
            c.auto_download == true,
            c.auto_install == false,
    {
        UpdateConfig {
            auto_check: true,
            check_interval_hours: 24,
            auto_download: true,
            auto_install: false,
        }
    }
}

} // verus!
