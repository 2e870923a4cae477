//! Which published release the updater offers: versions are read and
//! ordered by the `semver` crate; the release channel rules, the choice of
//! the newest acceptable release and of its download assets are decided
//! here.

use vstd::prelude::*;
use semver::Version;
use crate::text::{chars_of, contains_chars, contains_seq, push_str, seq_eq, str_eq, string_from_chars};

verus! {

#[verifier::external_type_specification]
#[verifier::external_body]
pub struct ExVersion(semver::Version);

#[verifier::external_type_specification]
#[verifier::external_body]
pub struct ExSemverError(semver::Error);

/// What `semver::Version::parse` makes of a text, taken by the pre-release
/// part of the parsed version; `None` where it refuses the text.
pub uninterp spec fn semver_prerelease(text: Seq<char>) -> Option<Seq<char>>;

/// Whether the version parsed from `a` comes after the one parsed from `b`
/// in `semver`'s order of versions.
pub uninterp spec fn semver_greater(a: Seq<char>, b: Seq<char>) -> bool;

/// The text `semver` prints for the version parsed from `text`.
pub uninterp spec fn semver_display(text: Seq<char>) -> Seq<char>;

/// A version parsed by `semver`, with the text it was read from.
pub struct ReleaseVersion {
    text: String,
    version: Version,
    pre: String,
}

impl View for ReleaseVersion {
    type V = Seq<char>;

    /// The text the version was read from.
    closed spec fn view(&self) -> Seq<char> {
        self.text@
    }
}

/// `semver::Version::parse`; a parsed version keeps its text and its
/// pre-release part.
#[verifier::external_body]
fn semver_parse(text: &str) -> (r: Result<ReleaseVersion, semver::Error>)
    ensures
        r is Ok <==> semver_prerelease(text@) is Some,
        r matches Ok(v) ==> v@ == text@ && semver_prerelease(text@) == Some(v.prerelease()),
{
    match Version::parse(text) {
        Ok(version) => Ok(
            ReleaseVersion { text: text.to_owned(), pre: version.pre.as_str().to_owned(), version },
        ),
        Err(error) => Err(error),
    }
}

/// `semver::Error`'s message (`Display`); nothing is stated of its text.
#[verifier::external_body]
fn semver_error_text(error: &semver::Error) -> String {
    error.to_string()
}

/// `>` on `semver::Version`.  A `ReleaseVersion` is only made by
/// `semver_parse`, so its version is the one parsed from its text.
#[verifier::external_body]
fn semver_gt(a: &ReleaseVersion, b: &ReleaseVersion) -> (r: bool)
    ensures
        r == semver_greater(a@, b@),
{
    a.version > b.version
}

/// `Display` of `semver::Version`.
#[verifier::external_body]
fn semver_text(v: &ReleaseVersion) -> (s: String)
    ensures
        s@ == semver_display(v@),
{
    v.version.to_string()
}

/// The first dot-separated identifier of a pre-release part is `preview`.
pub open spec fn preview_channel(pre: Seq<char>) -> bool {
    pre == "preview"@ || (pre.len() > 7 && pre.take(7) == "preview"@ && pre[7] == '.')
}

/// A candidate release is offered when it is newer, and is a preview
/// release on the preview channel, a plain release otherwise.
pub open spec fn channel_rule(newer: bool, current_pre: Seq<char>, candidate_pre: Seq<char>) -> bool {
    newer && if preview_channel(current_pre) {
        preview_channel(candidate_pre)
    } else {
        candidate_pre.len() == 0
    }
}

impl ReleaseVersion {
    /// The pre-release part, such as `preview.42`; empty for a plain
    /// release.
    pub closed spec fn prerelease(&self) -> Seq<char> {
        self.pre@
    }

    /// Reads a version; a refused text gives `semver`'s message.
    pub fn parse(text: &str) -> (r: Result<ReleaseVersion, String>)
        ensures
            r is Ok <==> semver_prerelease(text@) is Some,
            r matches Ok(v) ==> v@ == text@ && semver_prerelease(text@) == Some(v.prerelease()),
    {
        match semver_parse(text) {
            Ok(v) => Ok(v),
            Err(error) => Err(semver_error_text(&error)),
        }
    }

    pub fn is_preview(&self) -> (b: bool)
        ensures
            b == preview_channel(self.prerelease()),
    {
        is_preview_part(self.pre.as_str())
    }
}

/// Whether a pre-release part names the preview channel.
pub fn is_preview_part(pre: &str) -> (b: bool)
    ensures
        b == preview_channel(pre@),
{
    let p = chars_of(pre);
    let word = chars_of("preview");
    proof {
        reveal_strlit("preview");
    }
    if p.len() < 7 {
        return false;
    }
    let mut head: Vec<char> = Vec::new();
    let mut i: usize = 0;
    while i < 7
        invariant
            i <= 7 <= p@.len(),
            head@ == p@.take(i as int),
        decreases 7 - i,
    {
        head.push(p[i]);
        proof {
            assert(p@.take(i + 1) =~= p@.take(i as int).push(p@[i as int]));
        }
        i = i + 1;
    }
    if !seq_eq(&head, &word) {
        proof {
            if p@ == "preview"@ {
                assert(p@.take(7) =~= p@);
            }
        }
        return false;
    }
    if p.len() == 7 {
        assert(p@ =~= p@.take(7));
        return true;
    }
    p[7] == '.'
}

/// The channel rule given whether the candidate is newer.
pub fn channel_rule_after(newer: bool, current_pre: &str, candidate_pre: &str) -> (b: bool)
    ensures
        b == channel_rule(newer, current_pre@, candidate_pre@),
{
    newer && if is_preview_part(current_pre) {
        is_preview_part(candidate_pre)
    } else {
        chars_of(candidate_pre).len() == 0
    }
}

/// A build on the preview channel is offered newer preview builds; a
/// plain build is offered newer plain releases.
pub fn channel_accepts(current: &ReleaseVersion, candidate: &ReleaseVersion) -> (b: bool)
    ensures
        b == channel_rule(
            semver_greater(candidate@, current@),
            current.prerelease(),
            candidate.prerelease(),
        ),
{
    let newer = semver_gt(candidate, current);
    channel_rule_after(newer, current.pre.as_str(), candidate.pre.as_str())
}

/// A downloadable file of a published release.
#[derive(Debug, Clone, PartialEq, Eq)]
pub struct ReleaseAsset {
    pub name: String,
    pub download_url: String,
}

/// A published release as the release host lists it.
#[derive(Debug, Clone, PartialEq, Eq)]
pub struct ReleaseInfo {
    pub version: String,
    pub body: Option<String>,
    pub assets: Vec<ReleaseAsset>,
}

/// An update ready to be downloaded and checked.
#[derive(Debug, Clone, PartialEq, Eq)]
pub struct UpdateCandidate {
    pub version: String,
    pub notes: Option<String>,
    pub archive_url: String,
    pub checksum_url: String,
    pub archive_name: String,
}

/// A release tag without its leading `v`s (`str::trim_start_matches('v')`).
pub open spec fn strip_v(s: Seq<char>) -> Seq<char>
    decreases s.len(),
{
    if s.len() > 0 && s[0] == 'v' {
        strip_v(s.drop_first())
    } else {
        s
    }
}

/// The version text of a release tag.
pub fn version_text_of(tag: &str) -> (t: String)
    ensures
        t@ == strip_v(tag@),
{
    let c = chars_of(tag);
    let mut i: usize = 0;
    assert(c@.skip(0) =~= c@);
    while i < c.len() && c[i] == 'v'
        invariant
            i <= c@.len(),
            strip_v(c@) == strip_v(c@.skip(i as int)),
        decreases c.len() - i,
    {
        assert(c@.skip(i as int).drop_first() =~= c@.skip(i + 1));
        i = i + 1;
    }
    let mut rest: Vec<char> = Vec::new();
    let mut k: usize = i;
    while k < c.len()
        invariant
            i <= k <= c@.len(),
            rest@ == c@.subrange(i as int, k as int),
        decreases c.len() - k,
    {
        rest.push(c[k]);
        assert(c@.subrange(i as int, k + 1) =~= c@.subrange(i as int, k as int).push(c@[k as int]));
        k = k + 1;
    }
    assert(rest@ =~= c@.skip(i as int));
    string_from_chars(&rest)
}

/// A listed release is offered to a build of version `current`: its
/// version parses and passes the channel rule.
pub open spec fn offered(current: ReleaseVersion, tag: Seq<char>) -> bool {
    let t = strip_v(tag);
    semver_prerelease(t) matches Some(pre) && channel_rule(
        semver_greater(t, current@),
        current.prerelease(),
        pre,
    )
}

pub open spec fn release_tags(releases: Seq<ReleaseInfo>) -> Seq<Seq<char>> {
    releases.map_values(|r: ReleaseInfo| r.version@)
}

/// Position of the newest offered release, taking the releases in order
/// and keeping the later of two that `semver` orders neither way.
pub open spec fn newest_offered(current: ReleaseVersion, tags: Seq<Seq<char>>) -> Option<int>
    decreases tags.len(),
{
    if tags.len() == 0 {
        None
    } else {
        let before = newest_offered(current, tags.drop_last());
        let i = tags.len() - 1;
        if offered(current, tags[i]) && match before {
            Some(b) => !semver_greater(strip_v(tags[b]), strip_v(tags[i])),
            None => true,
        } {
            Some(i)
        } else {
            before
        }
    }
}

/// The newest release offered to a preview build among those listed.
pub fn newest_offered_release(current: &ReleaseVersion, releases: &[ReleaseInfo]) -> (r: Option<usize>)
    ensures
        match newest_offered(*current, release_tags(releases@)) {
            Some(i) => r == Some(i as usize),
            None => r is None,
        },
{
    let ghost tags = release_tags(releases@);
    let mut best: Option<(usize, ReleaseVersion)> = None;
    let mut i: usize = 0;
    while i < releases.len()
        invariant
            i <= releases@.len(),
            tags == release_tags(releases@),
            match best {
                Some((b, v)) => newest_offered(*current, tags.take(i as int)) == Some(b as int)
                    && b < i && v@ == strip_v(tags[b as int]),
                None => newest_offered(*current, tags.take(i as int)) is None,
            },
        decreases releases.len() - i,
    {
        assert(tags.take(i + 1).drop_last() =~= tags.take(i as int));
        assert(tags.take(i + 1)[i as int] == releases@[i as int].version@);
        let text = version_text_of(releases[i].version.as_str());
        match ReleaseVersion::parse(text.as_str()) {
            Ok(v) => {
                if channel_accepts(current, &v) {
                    let replace = match &best {
                        Some((_, b)) => !semver_gt(b, &v),
                        None => true,
                    };
                    if replace {
                        best = Some((i, v));
                    }
                }
            },
            Err(_) => {},
        }
        i = i + 1;
    }
    assert(tags.take(releases@.len() as int) =~= tags);
    match best {
        Some((b, _)) => Some(b),
        None => None,
    }
}

pub open spec fn starts_with(s: Seq<char>, prefix: Seq<char>) -> bool {
    s.len() >= prefix.len() && s.take(prefix.len() as int) == prefix
}

pub open spec fn ends_with(s: Seq<char>, suffix: Seq<char>) -> bool {
    s.len() >= suffix.len() && s.skip(s.len() - suffix.len()) == suffix
}

/// The archive of a release for the platform with the given marker.
pub open spec fn is_archive_for(name: Seq<char>, marker: Seq<char>) -> bool {
    contains_seq(name, marker) && ends_with(name, ".zip"@)
}

/// Position of the first archive for the platform.
#[verifier::opaque]
pub open spec fn archive_position(assets: Seq<ReleaseAsset>, marker: Seq<char>) -> Option<int> {
    if exists|i: int| 0 <= i < assets.len() && is_archive_for(#[trigger] assets[i].name@, marker) {
        Some(
            choose|i: int|
                0 <= i < assets.len() && is_archive_for(#[trigger] assets[i].name@, marker)
                    && forall|k: int|
                    0 <= k < i ==> !is_archive_for(#[trigger] assets[k].name@, marker),
        )
    } else {
        None
    }
}

/// Position of the first asset with the given name.
#[verifier::opaque]
pub open spec fn asset_position(assets: Seq<ReleaseAsset>, name: Seq<char>) -> Option<int> {
    if exists|i: int| 0 <= i < assets.len() && #[trigger] assets[i].name@ == name {
        Some(
            choose|i: int|
                0 <= i < assets.len() && #[trigger] assets[i].name@ == name && forall|k: int|
                    0 <= k < i ==> #[trigger] assets[k].name@ != name,
        )
    } else {
        None
    }
}

pub open spec fn bad_version_text() -> Seq<char> {
    "リリースのバージョン情報が不正です"@
}

pub open spec fn no_archive_text(marker: Seq<char>) -> Seq<char> {
    "このOS/CPU向けの更新がありません ("@ + marker + ")"@
}

pub open spec fn no_checksum_text() -> Seq<char> {
    "更新のSHA-256ファイルがありません"@
}

pub open spec fn untrusted_text() -> Seq<char> {
    "信頼されていない更新URLを拒否しました"@
}

pub open spec fn trusted_url(url: Seq<char>) -> bool {
    starts_with(url, "https://github.com/"@)
}

fn is_archive_name(name: &str, marker: &[char]) -> (b: bool)
    ensures
        b == is_archive_for(name@, marker@),
{
    let n = chars_of(name);
    let zip = chars_of(".zip");
    proof {
        reveal_strlit(".zip");
    }
    if !contains_chars(&n, marker) || n.len() < 4 {
        return false;
    }
    let start = n.len() - 4;
    let mut tail: Vec<char> = Vec::new();
    let mut k: usize = start;
    while k < n.len()
        invariant
            start == n@.len() - 4,
            start <= k <= n@.len(),
            tail@ == n@.subrange(start as int, k as int),
        decreases n.len() - k,
    {
        tail.push(n[k]);
        assert(n@.subrange(start as int, k + 1) =~= n@.subrange(start as int, k as int).push(
            n@[k as int],
        ));
        k = k + 1;
    }
    assert(tail@ =~= n@.skip(start as int));
    seq_eq(&tail, &zip)
}

fn find_archive(assets: &[ReleaseAsset], marker: &str) -> (r: Option<usize>)
    ensures
        match archive_position(assets@, marker@) {
            Some(i) => r == Some(i as usize) && 0 <= i < assets@.len(),
            None => r is None,
        },
{
    let m = chars_of(marker);
    let mut i: usize = 0;
    while i < assets.len()
        invariant
            i <= assets@.len(),
            m@ == marker@,
            forall|k: int| 0 <= k < i ==> !is_archive_for(#[trigger] assets@[k].name@, marker@),
        decreases assets.len() - i,
    {
        if is_archive_name(assets[i].name.as_str(), &m) {
            proof {
                reveal(archive_position);
                let ghost p = archive_position(assets@, marker@);
                assert(is_archive_for(assets@[i as int].name@, marker@));
                let ghost c = p->0;
                if c < i {
                    assert(!is_archive_for(assets@[c].name@, marker@));
                }
                if c > i {
                    assert(!is_archive_for(assets@[i as int].name@, marker@));
                }
            }
            return Some(i);
        }
        i = i + 1;
    }
    proof {
        reveal(archive_position);
    }
    None
}

fn find_asset(assets: &[ReleaseAsset], name: &[char]) -> (r: Option<usize>)
    ensures
        match asset_position(assets@, name@) {
            Some(i) => r == Some(i as usize) && 0 <= i < assets@.len(),
            None => r is None,
        },
{
    let mut i: usize = 0;
    while i < assets.len()
        invariant
            i <= assets@.len(),
            forall|k: int| 0 <= k < i ==> #[trigger] assets@[k].name@ != name@,
        decreases assets.len() - i,
    {
        let candidate = chars_of(assets[i].name.as_str());
        if seq_eq(&candidate, name) {
            proof {
                reveal(asset_position);
                let ghost p = asset_position(assets@, name@);
                assert(assets@[i as int].name@ == name@);
                let ghost c = p->0;
                if c < i {
                    assert(assets@[c].name@ != name@);
                }
                if c > i {
                    assert(assets@[i as int].name@ != name@);
                }
            }
            return Some(i);
        }
        i = i + 1;
    }
    proof {
        reveal(asset_position);
    }
    None
}

fn is_trusted_url(url: &str) -> (b: bool)
    ensures
        b == trusted_url(url@),
{
    let u = chars_of(url);
    let prefix = chars_of("https://github.com/");
    if u.len() < prefix.len() {
        return false;
    }
    let mut head: Vec<char> = Vec::new();
    let mut k: usize = 0;
    while k < prefix.len()
        invariant
            prefix@.len() <= u@.len(),
            k <= prefix@.len(),
            head@ == u@.take(k as int),
        decreases prefix.len() - k,
    {
        head.push(u[k]);
        assert(u@.take(k + 1) =~= u@.take(k as int).push(u@[k as int]));
        k = k + 1;
    }
    seq_eq(&head, &prefix)
}

/// The assets an update downloads: the first archive for the platform,
/// the SHA-256 file named after it, both served from GitHub.
pub open spec fn asset_choice(assets: Seq<ReleaseAsset>, marker: Seq<char>) -> Result<(int, int), Seq<char>> {
    match archive_position(assets, marker) {
        None => Err(no_archive_text(marker)),
        Some(a) => match asset_position(assets, assets[a].name@ + ".sha256"@) {
            None => Err(no_checksum_text()),
            Some(c) => if trusted_url(assets[a].download_url@) && trusted_url(
                assets[c].download_url@,
            ) {
                Ok((a, c))
            } else {
                Err(untrusted_text())
            },
        },
    }
}

/// Picks the archive and checksum assets of a release for a platform.
pub fn choose_assets(assets: &[ReleaseAsset], marker: &str) -> (r: Result<(usize, usize), String>)
    ensures
        match asset_choice(assets@, marker@) {
            Ok((a, c)) => r matches Ok((x, y)) && x == a && y == c && a < assets@.len() && c
                < assets@.len(),
            Err(m) => r matches Err(e) && e@ == m,
        },
{
    let a = match find_archive(assets, marker) {
        Some(a) => a,
        None => {
            let mut m: Vec<char> = Vec::new();
            push_str(&mut m, "このOS/CPU向けの更新がありません (");
            push_str(&mut m, marker);
            push_str(&mut m, ")");
            return Err(string_from_chars(&m));
        },
    };
    let mut sidecar = chars_of(assets[a].name.as_str());
    push_str(&mut sidecar, ".sha256");
    let c = match find_asset(assets, &sidecar) {
        Some(c) => c,
        None => {
            return Err("更新のSHA-256ファイルがありません".to_owned());
        },
    };
    if !(is_trusted_url(assets[a].download_url.as_str()) && is_trusted_url(
        assets[c].download_url.as_str(),
    )) {
        return Err("信頼されていない更新URLを拒否しました".to_owned());
    }
    Ok((a, c))
}

/// The update offered by a release to a build of version `current` on the
/// platform with the given marker: none when the channel rule refuses it,
/// otherwise the version as `semver` prints it, the release notes and the
/// chosen assets.
pub fn candidate_from_release(current: &ReleaseVersion, release: &ReleaseInfo, marker: &str) -> (r: Result<Option<UpdateCandidate>, String>)
    ensures
        ({
            let t = strip_v(release.version@);
            let assets = release.assets@;
            match semver_prerelease(t) {
                None => r matches Err(m) && m@ == bad_version_text(),
                Some(pre) => if !channel_rule(semver_greater(t, current@), current.prerelease(), pre) {
                    r matches Ok(None)
                } else {
                    match asset_choice(assets, marker@) {
                        Err(m) => r matches Err(e) && e@ == m,
                        Ok((a, c)) => r matches Ok(Some(u)) && u.version@ == semver_display(t)
                            && u.notes == release.body && u.archive_url@ == assets[a].download_url@
                            && u.checksum_url@ == assets[c].download_url@ && u.archive_name@
                            == assets[a].name@,
                    }
                },
            }
        }),
{
    let text = version_text_of(release.version.as_str());
    let latest = match ReleaseVersion::parse(text.as_str()) {
        Ok(v) => v,
        Err(_) => {
            return Err("リリースのバージョン情報が不正です".to_owned());
        },
    };
    if !channel_accepts(current, &latest) {
        return Ok(None);
    }
    let slice = release.assets.as_slice();
    assert(slice@ == release.assets@);
    let chosen = choose_assets(slice, marker);
    let (a, c) = match chosen {
        Ok(pair) => pair,
        Err(e) => {
            return Err(e);
        },
    };
    let notes = match &release.body {
        Some(b) => Some(b.clone()),
        None => None,
    };
    let version = semver_text(&latest);
    Ok(
        Some(
            UpdateCandidate {
                version,
                notes,
                archive_url: release.assets[a].download_url.clone(),
                checksum_url: release.assets[c].download_url.clone(),
                archive_name: release.assets[a].name.clone(),
            },
        ),
    )
}

} // verus!
