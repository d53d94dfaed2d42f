//! The version that the program reports.
//!
//! A release is stamped with its tag, everything else with the commit it came from, so that
//! a binary built in between can never be mistaken for a release.

use vstd::prelude::*;
use vstd::string::*;

use crate::text;

verus! {

/// How many bytes of a commit's hash tell it apart.
pub const SHORT_SHA_LEN: usize = 7;

/// A release tag, with any `v` prefix stripped. A blank one counts as absent.
pub open spec fn release_of(raw: Seq<char>) -> Option<Seq<char>> {
    let tag = text::trimmed(raw);
    let bare = match text::after_prefix(tag, "v"@) {
        Some(rest) => rest,
        None => tag,
    };
    if bare.len() > 0 {
        Some(bare)
    } else {
        None
    }
}

/// The release tag, with any `v` prefix stripped (`v1.2.3` → `1.2.3`).
///
/// An empty value counts as absent so the variable can be passed unconditionally.
pub fn release_version(raw: &str) -> (version: Option<String>)
    ensures
        text::optional_text(version) == release_of(raw@),
{
    let tag = text::trim(raw);
    let bare = match text::strip_prefix(tag, "v") {
        Some(rest) => rest,
        None => tag,
    };
    if bare.is_empty() {
        None
    } else {
        Some(bare.to_owned())
    }
}

/// A manifest version with a pre-release tag.
pub open spec fn dev_base_of(version: Seq<char>) -> Seq<char> {
    if version.contains('-') {
        version
    } else {
        version + "-dev"@
    }
}

/// The manifest version, which carries its own `-dev` pre-release tag.
///
/// One is appended if it ever loses it, so that a dev build never reports a bare release
/// number no matter what the manifest says.
pub fn dev_base(version: &str) -> (base: String)
    ensures
        base@ == dev_base_of(version@),
{
    let mut base = version.to_owned();
    match text::past_first(version, '-') {
        Some(_) => {},
        None => {
            base.append("-dev");
        },
    }
    base
}

/// The start of a commit's hash, if it is long enough.
pub open spec fn short_sha_of(sha: Seq<char>) -> Option<Seq<char>> {
    text::front(text::trimmed(sha), SHORT_SHA_LEN as nat)
}

/// The start of the commit's hash that a build machine tells, if it is long enough. A text
/// with a character across the end of that start is no hash.
pub fn short_sha(sha: &str) -> (short: Option<String>)
    ensures
        text::optional_text(short) == short_sha_of(sha@),
{
    match text::front_of(text::trim(sha), SHORT_SHA_LEN) {
        Some(start) => Some(start.to_owned()),
        None => None,
    }
}

/// The version of a build between releases.
pub open spec fn dev_version_of(
    version: Seq<char>,
    sha: Option<Seq<char>>,
    dirty: bool,
) -> Seq<char> {
    match sha {
        Some(s) => dev_base_of(version) + "+g"@ + s + (if dirty {
            ".dirty"@
        } else {
            ""@
        }),
        None => dev_base_of(version),
    }
}

/// `<manifest version>+g<short sha>[.dirty]`, e.g. `0.0.0-dev+g2cd0b57`.
///
/// The commit is dropped when there is nothing to read it from (a source
/// tarball with no checkout), leaving the bare manifest version.
pub fn dev_version(version: &str, sha: Option<&str>, dirty: bool) -> (reported: String)
    ensures
        reported@ == dev_version_of(version@, text::optional_str(sha), dirty),
{
    let mut reported = dev_base(version);
    if let Some(sha) = sha {
        reported.append("+g");
        reported.append(sha);
        reported.append(if dirty {
            ".dirty"
        } else {
            ""
        });
    }
    reported
}

/// The version that a build reports: its release tag if it has one.
pub fn reported_version(
    release: Option<&str>,
    version: &str,
    sha: Option<&str>,
    dirty: bool,
) -> (reported: String)
    ensures
        reported@ == (match release {
            Some(raw) => match release_of(raw@) {
                Some(tag) => tag,
                None => dev_version_of(version@, text::optional_str(sha), dirty),
            },
            None => dev_version_of(version@, text::optional_str(sha), dirty),
        }),
{
    let tag = match release {
        Some(raw) => release_version(raw),
        None => None,
    };
    match tag {
        Some(tag) => tag,
        None => dev_version(version, sha, dirty),
    }
}

/// A build between releases never reports a bare release number: its version carries a
/// pre-release tag.
pub proof fn law_dev_build_is_no_release(version: Seq<char>, sha: Option<Seq<char>>, dirty: bool)
    ensures
        dev_version_of(version, sha, dirty).contains('-'),
{
    reveal_strlit("-dev");
    let base = dev_base_of(version);
    if !version.contains('-') {
        assert(base[version.len() as int] == '-');
    }
    let at = choose|i: int| 0 <= i < base.len() && base[i] == '-';
    assert(dev_version_of(version, sha, dirty)[at] == '-');
}

/// A release is reported under its tag, white space around it and one `v` in front left out.
/// A build without a tag, or with a blank one, is reported as one between releases.
pub proof fn law_release_is_reported_by_its_tag(
    release: Option<&str>,
    version: &str,
    sha: Option<&str>,
    dirty: bool,
    reported: String,
    between: String,
    rest: Seq<char>,
)
    requires
        call_ensures(reported_version, (release, version, sha, dirty), reported),
        call_ensures(dev_version, (version, sha, dirty), between),
    ensures
        release is None ==> reported@ == between@,
        release is Some && text::trimmed(release->0@).len() == 0 ==> reported@ == between@,
        release is Some && text::trimmed(release->0@) == seq!['v'] + rest && rest.len() > 0
            ==> reported@ == rest,
        release is Some && text::trimmed(release->0@) == seq!['v'] ==> reported@ == between@,
        release is Some && text::trimmed(release->0@).len() > 0 && text::trimmed(release->0@)[0]
            != 'v' ==> reported@ == text::trimmed(release->0@),
{
    reveal_strlit("v");
    if release is Some {
        let tag = text::trimmed(release->0@);
        assert("v"@ == seq!['v']);
        if tag == seq!['v'] + rest {
            assert(tag.take(1) == "v"@);
            assert("v"@.is_prefix_of(tag));
            assert(tag.skip(1) == rest);
        }
        if tag == seq!['v'] {
            assert("v"@.is_prefix_of(tag));
            assert(tag.skip(1) == Seq::<char>::empty());
        }
        if tag.len() > 0 && tag[0] != 'v' {
            if "v"@.is_prefix_of(tag) {
                assert(tag.subrange(0, 1)[0] == "v"@[0]);
            }
        }
    }
}

/// A build between releases is reported by the version of the manifest, with `-dev` added where
/// that has no pre-release tag; then `+g` and the commit where it is known, and `.dirty` where
/// the sources differ from it. The commit is known by the first seven characters of its hash.
pub proof fn law_build_between_releases(
    version: &str,
    base: String,
    sha: Option<&str>,
    dirty: bool,
    reported: String,
    whole: &str,
    short: Option<String>,
)
    requires
        call_ensures(dev_base, (version,), base),
        call_ensures(dev_version, (version, sha, dirty), reported),
        call_ensures(short_sha, (whole,), short),
    ensures
        version@.contains('-') ==> base@ == version@,
        !version@.contains('-') ==> base@ == version@ + "-dev"@,
        sha is None ==> reported@ == base@,
        sha is Some && !dirty ==> reported@ == base@ + "+g"@ + sha->0@,
        sha is Some && dirty ==> reported@ == base@ + "+g"@ + sha->0@ + ".dirty"@,
        (forall|i: int|
            0 <= i < text::trimmed(whole@).len() ==> (#[trigger] text::trimmed(whole@)[i]) as u32
                <= 0x7f) ==> {
            &&& short is Some <==> text::trimmed(whole@).len() >= 7
            &&& short is Some ==> short->0@ == text::trimmed(whole@).take(7)
        },
{
    reveal_strlit("");
    if sha is Some {
        assert(base@ + "+g"@ + sha->0@ + ""@ == base@ + "+g"@ + sha->0@);
    }
    let hash = text::trimmed(whole@);
    if forall|i: int| 0 <= i < hash.len() ==> (#[trigger] hash[i]) as u32 <= 0x7f {
        text::lemma_front_of_ascii(hash, 7);
    }
}

} // verus!
