//! Whether a newer release of the launcher has been published.

use vstd::prelude::*;

use crate::text::{
    cut_leading, is_white_space, leading_runs_are_taken_off, space_around_a_text_is_taken_off, trim,
    trimmed, without_leading,
};

verus! {

/// Where the latest release is described.
pub const RELEASES_API_URL: &'static str =
    "https://api.github.com/repos/itamar567/df-desktop/releases/latest";

/// The version of this launcher, which is the package's version.
pub const CURRENT_VERSION: &'static str = "0.1.0";

/// A release that is newer than this launcher.
#[derive(Debug, Clone, PartialEq, Eq)]
pub struct AvailableUpdate {
    pub version: String,
    /// The release's page.
    pub url: String,
}

/// `serde_json::Value`, a JSON value.
#[verifier::external_type_specification]
#[verifier::external_body]
pub struct ExValue(serde_json::Value);

/// The members of a JSON object whose values are texts; none of any other JSON
/// value.
pub uninterp spec fn text_members(value: serde_json::Value) -> Map<Seq<char>, Seq<char>>;

/// `serde_json::Value::get` with a member's name, then `Value::as_str`: the text
/// that a member holds, where the value is an object that has that member and
/// it holds a text.
#[verifier::external_body]
fn text_member(value: &serde_json::Value, name: &str) -> (text: Option<String>)
    ensures
        match text {
            Some(t) => text_members(*value).contains_key(name@) && text_members(*value)[name@]
                == t@,
            None => !text_members(*value).contains_key(name@),
        },
{
    value.get(name)?.as_str().map(str::to_owned)
}

/// The text is a version as `semver::Version::parse` reads one.
pub uninterp spec fn is_version(text: Seq<char>) -> bool;

/// `semver::Version::parse`: whether a text is a version.
#[verifier::external_body]
fn parses_as_version(text: &str) -> (yes: bool)
    ensures
        yes == is_version(text@),
{
    semver::Version::parse(text).is_ok()
}

/// `semver::Version`'s `Display`: a version is written as it was read.
#[verifier::external_body]
fn version_text(text: &str) -> (written: String)
    requires
        is_version(text@),
    ensures
        written@ == text@,
{
    semver::Version::parse(text).expect("a version").to_string()
}

/// The first version is greater than the second in the order of
/// `semver::Version`.
pub uninterp spec fn is_newer(latest: Seq<char>, current: Seq<char>) -> bool;

/// `semver::Version`'s order: whether the first version is greater than the
/// second. No version is greater than itself, nor greater than one that is
/// greater than it.
#[verifier::external_body]
fn version_is_newer(latest: &str, current: &str) -> (newer: bool)
    requires
        is_version(latest@),
        is_version(current@),
    ensures
        newer == is_newer(latest@, current@),
        newer ==> latest@ != current@,
        newer ==> !is_newer(current@, latest@),
{
    semver::Version::parse(latest).expect("a version")
        > semver::Version::parse(current).expect("a version")
}

/// The version that a release's tag names: the tag without the space around it
/// and without the `v` before it.
pub open spec fn tagged_version(tag: Seq<char>) -> Seq<char> {
    without_leading(trimmed(tag), 'v')
}

/// The tag names a version that is newer than this launcher's.
pub open spec fn names_newer_version(tag: Seq<char>) -> bool {
    &&& is_version(CURRENT_VERSION@)
    &&& is_version(tagged_version(tag))
    &&& is_newer(tagged_version(tag), CURRENT_VERSION@)
}

/// Reads a release's tag. Returns the version that it names where that is newer
/// than this launcher's.
pub fn newer_than_current(tag: &str) -> (version: Option<String>)
    ensures
        match version {
            Some(text) => names_newer_version(tag@) && text@ == tagged_version(tag@) && text@
                != CURRENT_VERSION@,
            None => !names_newer_version(tag@),
        },
{
    if !parses_as_version(CURRENT_VERSION) {
        return None;
    }
    let latest = cut_leading(trim(tag), 'v');
    if !parses_as_version(latest) {
        return None;
    }
    let newer = version_is_newer(latest, CURRENT_VERSION);
    let written = version_text(latest);
    accepted_version(written, newer)
}

/// A version that was read, where it is newer than this launcher's.
pub fn accepted_version(version: String, newer: bool) -> (accepted: Option<String>)
    ensures
        match accepted {
            Some(text) => newer && text@ == version@,
            None => !newer,
        },
{
    if newer {
        Some(version)
    } else {
        None
    }
}

/// The release that a JSON value describes is an update: it names a newer
/// version, and has a page.
pub open spec fn describes_update(release: serde_json::Value) -> bool {
    let members = text_members(release);
    &&& members.contains_key("tag_name"@)
    &&& names_newer_version(members["tag_name"@])
    &&& members.contains_key("html_url"@)
}

/// Reads the description of the latest release. Returns the update where it is
/// one.
pub fn latest_update(release: &serde_json::Value) -> (update: Option<AvailableUpdate>)
    ensures
        match update {
            Some(found) => {
                &&& describes_update(*release)
                &&& found.version@ == tagged_version(text_members(*release)["tag_name"@])
                &&& found.url@ == text_members(*release)["html_url"@]
            },
            None => !describes_update(*release),
        },
{
    match text_member(release, "tag_name") {
        None => None,
        Some(tag) => match newer_than_current(tag.as_str()) {
            None => None,
            Some(version) => update_at(version, text_member(release, "html_url")),
        },
    }
}

/// The update to a newer version, where it has a page.
pub fn update_at(version: String, url: Option<String>) -> (update: Option<AvailableUpdate>)
    ensures
        match update {
            Some(found) => url matches Some(page) && found.version@ == version@ && found.url@
                == page@,
            None => url is None,
        },
{
    match url {
        Some(page) => Some(AvailableUpdate { version, url: page }),
        None => None,
    }
}

/// A tag names the version that stands in it behind any number of `v`s, with any
/// white space around the tag.
pub proof fn tags_name_their_versions(
    before: Seq<char>,
    run: Seq<char>,
    version: Seq<char>,
    after: Seq<char>,
)
    requires
        forall|i: int| 0 <= i < before.len() ==> is_white_space(#[trigger] before[i]),
        forall|i: int| 0 <= i < after.len() ==> is_white_space(#[trigger] after[i]),
        forall|i: int| 0 <= i < run.len() ==> #[trigger] run[i] == 'v',
        version.len() > 0,
        version[0] != 'v',
        !is_white_space(version[0]),
        !is_white_space(version.last()),
    ensures
        tagged_version(before + (run + version) + after) == version,
{
    let tag = run + version;
    assert(!is_white_space(tag[0])) by {
        if run.len() > 0 {
            assert(run[0] == 'v');
        }
    }
    assert(tag.last() == version.last());
    space_around_a_text_is_taken_off(before, tag, after);
    leading_runs_are_taken_off(run, version, 'v');
}

/// A tag is that of an update exactly where what it names is a version and newer
/// than this launcher's, which is one too; so no launcher is told to update to itself where no
/// version is newer than itself.
pub proof fn updates_are_newer(tag: Seq<char>)
    ensures
        names_newer_version(tag) <==> is_version(CURRENT_VERSION@) && is_version(
            tagged_version(tag),
        ) && is_newer(tagged_version(tag), CURRENT_VERSION@),
        !is_newer(CURRENT_VERSION@, CURRENT_VERSION@) && tagged_version(tag) == CURRENT_VERSION@
            ==> !names_newer_version(tag),
{
}

/// A release is an update exactly where it has a page, and a tag that names a
/// newer version.
pub proof fn releases_are_updates_by_their_tag_and_page(release: serde_json::Value)
    ensures
        describes_update(release) <==> {
            &&& text_members(release).dom().contains("html_url"@)
            &&& text_members(release).dom().contains("tag_name"@)
            &&& names_newer_version(text_members(release)["tag_name"@])
        },
{
}

/// A newer version that is read from a tag is the one that stands in the tag,
/// behind any number of `v`s and between any white space; and it is read exactly
/// where it is a version and newer than this launcher's.
pub proof fn newer_versions_are_read_from_tags(
    tag: &str,
    found: Option<String>,
    before: Seq<char>,
    run: Seq<char>,
    version: Seq<char>,
    after: Seq<char>,
)
    requires
        call_ensures(newer_than_current, (tag,), found),
        tag@ == before + (run + version) + after,
        forall|i: int| 0 <= i < before.len() ==> is_white_space(#[trigger] before[i]),
        forall|i: int| 0 <= i < after.len() ==> is_white_space(#[trigger] after[i]),
        forall|i: int| 0 <= i < run.len() ==> #[trigger] run[i] == 'v',
        version.len() > 0,
        version[0] != 'v',
        !is_white_space(version[0]),
        !is_white_space(version.last()),
    ensures
        found matches Some(text) ==> text@ == version,
        found is Some <==> is_version(CURRENT_VERSION@) && is_version(version) && is_newer(
            version,
            CURRENT_VERSION@,
        ),
{
    tags_name_their_versions(before, run, version, after);
}

/// An update is announced with the version that its tag names and with its page,
/// and only where the tag alone would be taken as newer.
pub proof fn updates_come_with_their_page(
    release: &serde_json::Value,
    update: Option<AvailableUpdate>,
    tag: &str,
    newer: Option<String>,
)
    requires
        call_ensures(latest_update, (release,), update),
        call_ensures(newer_than_current, (tag,), newer),
        text_members(*release).dom().contains("tag_name"@),
        text_members(*release)["tag_name"@] == tag@,
    ensures
        update is Some <==> newer is Some && text_members(*release).dom().contains("html_url"@),
        update matches Some(found) ==> found.version@ == newer->0@ && found.url@ == text_members(
            *release,
        )["html_url"@],
{
}

/// A release without a tag is no update.
pub proof fn releases_without_a_tag_are_no_updates(
    release: &serde_json::Value,
    update: Option<AvailableUpdate>,
)
    requires
        call_ensures(latest_update, (release,), update),
        !text_members(*release).dom().contains("tag_name"@),
    ensures
        update is None,
{
}

/// A version is taken exactly where it is newer, and an update exactly where it
/// has a page; both are handed on as they are.
pub proof fn versions_and_pages_are_handed_on(
    version: String,
    newer: bool,
    accepted: Option<String>,
    page: Option<String>,
    update: Option<AvailableUpdate>,
)
    requires
        call_ensures(accepted_version, (version, newer), accepted),
        call_ensures(update_at, (version, page), update),
    ensures
        accepted is Some <==> newer,
        accepted is Some ==> accepted->0@ == version@,
        update is Some <==> page is Some,
        update is Some ==> update->0.version@ == version@ && update->0.url@ == page->0@,
{
}

} // verus!
