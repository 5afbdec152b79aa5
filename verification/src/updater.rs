//! Self-update: which release asset belongs to this platform.

use vstd::prelude::*;
use crate::output::CliMessage;
use crate::text::{cat3, cat5, chars_eq, chars_of, opt_view, push_str, slice_chars, starts_with, string_of};

verus! {

/// A downloadable file of a release.
#[derive(Clone, Debug)]
pub struct ReleaseAsset {
    /// The file name, e.g. `md-docs-v0.2.0-linux-x86_64.tar.gz`.
    pub name: String,
    /// Where to download it.
    pub download_url: String,
}

/// The version of a release tag: the tag without one leading `v`.
pub open spec fn tag_version(tag: Seq<char>) -> Seq<char> {
    if starts_with(tag, "v"@) { tag.skip(1) } else { tag }
}

/// The asset name for a release of `tag` on the operating system `os` and
/// architecture `arch` (as `std::env::consts` names them), or why there is none.
pub open spec fn asset_name_for(tag: Seq<char>, os: Seq<char>, arch: Seq<char>) -> Result<Seq<char>, Seq<char>> {
    if os == "macos"@ {
        Ok("md-docs-v"@ + tag_version(tag) + "-macos-universal.tar.gz"@)
    } else if os == "linux"@ {
        if arch == "x86_64"@ || arch == "aarch64"@ {
            Ok("md-docs-v"@ + tag_version(tag) + "-linux-"@ + arch + ".tar.gz"@)
        } else {
            Err("Unsupported architecture for self-update"@)
        }
    } else {
        Err("Self-update is not supported on this platform"@)
    }
}

/// The name of the release asset for this platform: macOS has one universal
/// archive; Linux has one for x86_64 and one for aarch64; other platforms
/// have none, and the error says why.
pub fn platform_asset_name(tag: &str, os: &str, arch: &str) -> (r: Result<String, String>)
    ensures
        match asset_name_for(tag@, os@, arch@) {
            Ok(n) => r is Ok && r->Ok_0@ == n,
            Err(m) => r is Err && r->Err_0@ == m,
        },
{
    let version = chars_of(version_of_tag(tag).as_str());
    let o = chars_of(os);
    let a = chars_of(arch);
    let macos = chars_of("macos");
    let linux = chars_of("linux");
    let x86 = chars_of("x86_64");
    let arm = chars_of("aarch64");
    if chars_eq(o.as_slice(), macos.as_slice()) {
        let mut out = chars_of("md-docs-v");
        push_str(&mut out, string_of(version.as_slice()).as_str());
        push_str(&mut out, "-macos-universal.tar.gz");
        Ok(string_of(out.as_slice()))
    } else if chars_eq(o.as_slice(), linux.as_slice()) {
        if chars_eq(a.as_slice(), x86.as_slice()) || chars_eq(a.as_slice(), arm.as_slice()) {
            let mut out = chars_of("md-docs-v");
            push_str(&mut out, string_of(version.as_slice()).as_str());
            push_str(&mut out, "-linux-");
            push_str(&mut out, arch);
            push_str(&mut out, ".tar.gz");
            Ok(string_of(out.as_slice()))
        } else {
            Err(String::from_str("Unsupported architecture for self-update"))
        }
    } else {
        Err(String::from_str("Self-update is not supported on this platform"))
    }
}

/// The position of the first asset named `name`, if any.
pub fn find_asset(assets: &[ReleaseAsset], name: &str) -> (r: Option<usize>)
    ensures
        match r {
            Some(i) => i < assets@.len() && assets@[i as int].name@ == name@
                && forall|j: int| 0 <= j < i ==> assets@[j].name@ != name@,
            None => forall|j: int| 0 <= j < assets@.len() ==> assets@[j].name@ != name@,
        },
{
    let target = chars_of(name);
    let mut i: usize = 0;
    while i < assets.len()
        invariant
            i <= assets.len(),
            target@ == name@,
            forall|j: int| 0 <= j < i ==> assets@[j].name@ != name@,
        decreases assets.len() - i,
    {
        let candidate = chars_of(assets[i].name.as_str());
        if chars_eq(candidate.as_slice(), target.as_slice()) {
            return Some(i);
        }
        i = i + 1;
    }
    None
}


/// The version of a release tag: the tag without one leading `v`.
pub fn version_of_tag(tag: &str) -> (v: String)
    ensures
        v@ == tag_version(tag@),
{
    proof {
        reveal_strlit("v");
    }
    let t = chars_of(tag);
    if t.len() > 0 && t[0] == 'v' {
        assert(starts_with(tag@, "v"@)) by {
            assert(tag@.subrange(0, 1) =~= "v"@);
        }
        let rest = slice_chars(t.as_slice(), 1, t.len());
        assert(rest@ =~= tag@.skip(1));
        string_of(rest.as_slice())
    } else {
        assert(!starts_with(tag@, "v"@)) by {
            if t.len() > 0 {
                assert(tag@.subrange(0, 1)[0] == tag@[0]);
            }
        }
        String::from_str(tag)
    }
}

/// The strings of an asset entry: its name and its download URL.
pub open spec fn entry_strings(e: (Option<String>, Option<String>)) -> (Option<Seq<char>>, Option<Seq<char>>) {
    (opt_view(e.0), opt_view(e.1))
}

/// What a release document read as JSON shows: its tag name and its assets
/// (each with a name and a download URL), each `None` when missing or not of
/// the expected kind.
pub open spec fn release_view(
    r: Result<(Option<String>, Option<Vec<(Option<String>, Option<String>)>>), String>,
) -> Result<(Option<Seq<char>>, Option<Seq<(Option<Seq<char>>, Option<Seq<char>>)>>), Seq<char>> {
    match r {
        Ok((tag, assets)) => Ok((
            opt_view(tag),
            match assets {
                Some(a) => Some(a@.map_values(|e: (Option<String>, Option<String>)| entry_strings(e))),
                None => None,
            },
        )),
        Err(m) => Err(m@),
    }
}

/// The tag name and the assets of a GitHub release document, or the JSON
/// parser's message.
pub uninterp spec fn release_json(body: Seq<char>) -> Result<(Option<Seq<char>>, Option<Seq<(Option<Seq<char>>, Option<Seq<char>>)>>), Seq<char>>;

/// Reads a release document (`serde_json::from_str` into a `Value`): its
/// `tag_name` string, and for each element of its `assets` array the `name`
/// and `browser_download_url` strings (`Value::as_str`, `Value::as_array`).
/// Parsing is deterministic, so the result is named `release_json` of the
/// body.
#[verifier::external_body]
fn read_release_json(body: &str) -> (r: Result<(Option<String>, Option<Vec<(Option<String>, Option<String>)>>), String>)
    ensures
        release_view(r) == release_json(body@),
{
    let json: serde_json::Value = match serde_json::from_str(body) {
        Ok(j) => j,
        Err(e) => return Err(e.to_string()),
    };
    let text = |v: &serde_json::Value| v.as_str().map(String::from);
    let assets = json["assets"].as_array().map(|a| a.iter().map(|x| (text(&x["name"]), text(&x["browser_download_url"]))).collect());
    Ok((text(&json["tag_name"]), assets))
}

/// The assets that have both a name and a download URL, in order.
pub open spec fn kept_assets(a: Seq<(Option<Seq<char>>, Option<Seq<char>>)>) -> Seq<(Seq<char>, Seq<char>)>
    decreases a.len(),
{
    if a.len() == 0 {
        Seq::empty()
    } else {
        kept_assets(a.drop_last()) + match a.last() {
            (Some(n), Some(u)) => seq![(n, u)],
            _ => Seq::empty(),
        }
    }
}

/// The name and URL of each asset.
pub open spec fn asset_views(a: Seq<ReleaseAsset>) -> Seq<(Seq<char>, Seq<char>)> {
    a.map_values(|x: ReleaseAsset| (x.name@, x.download_url@))
}

/// The release described by a GitHub API response: its tag, and its assets
/// (those with a name and a download URL) when it lists any. A body that is
/// not JSON, or names no tag, is an error with its message.
pub fn release_fields(body: &str) -> (r: Result<(String, Option<Vec<ReleaseAsset>>), String>)
    ensures
        match release_json(body@) {
            Err(why) => r is Err && r->Err_0@ == "Failed to parse GitHub API response as JSON: "@ + why,
            Ok((None, _)) => r is Err && r->Err_0@ == "GitHub release missing 'tag_name'"@,
            Ok((Some(tag), assets)) => r is Ok && r->Ok_0.0@ == tag && match assets {
                None => r->Ok_0.1 is None,
                Some(a) => r->Ok_0.1 is Some && asset_views(r->Ok_0.1->Some_0@) == kept_assets(a),
            },
        },
{
    let (tag, assets) = match read_release_json(body) {
        Ok(fields) => fields,
        Err(why) => {
            proof {
                reveal_strlit("");
            }
            return Err(cat3("Failed to parse GitHub API response as JSON: ", why.as_str(), ""));
        },
    };
    let tag = match tag {
        Some(t) => t,
        None => return Err(String::from_str("GitHub release missing 'tag_name'")),
    };
    let entries = match assets {
        Some(a) => a,
        None => return Ok((tag, None)),
    };
    let ghost views_all = entries@.map_values(|e: (Option<String>, Option<String>)| entry_strings(e));
    let mut kept: Vec<ReleaseAsset> = Vec::new();
    let mut i: usize = 0;
    while i < entries.len()
        invariant
            i <= entries.len(),
            views_all == entries@.map_values(|e: (Option<String>, Option<String>)| entry_strings(e)),
            asset_views(kept@) == kept_assets(views_all.take(i as int)),
        decreases entries.len() - i,
    {
        assert(views_all.take(i + 1).drop_last() =~= views_all.take(i as int));
        match (&entries[i].0, &entries[i].1) {
            (Some(n), Some(u)) => {
                kept.push(ReleaseAsset { name: n.clone(), download_url: u.clone() });
                assert(asset_views(kept@) =~= kept_assets(views_all.take(i + 1)));
            },
            _ => {
                assert(asset_views(kept@) =~= kept_assets(views_all.take(i + 1)));
            },
        }
        i = i + 1;
    }
    assert(views_all.take(entries.len() as int) =~= views_all);
    Ok((tag, Some(kept)))
}


// ---------------------------------------------------------------------------
// Deciding on an update
// ---------------------------------------------------------------------------

/// Whether `latest` is a newer semantic version than `current` (by semver
/// precedence), or `None` when either is not a semantic version.
pub uninterp spec fn version_newer(current: Seq<char>, latest: Seq<char>) -> Option<bool>;

/// Parses both versions (`semver::Version::parse`) and compares them (`<` of
/// `semver::Version`). Parsing and precedence depend on the two texts alone,
/// so the result is named `version_newer` of them.
#[verifier::external_body]
fn newer_version(current: &str, latest: &str) -> (r: Option<bool>)
    ensures
        r == version_newer(current@, latest@),
{
    match (semver::Version::parse(current), semver::Version::parse(latest)) {
        (Ok(c), Ok(l)) => Some(c < l),
        _ => None,
    }
}

/// What looking for an update found.
#[derive(Debug)]
pub enum UpdateView {
    /// The program was installed by the system package manager.
    AurInstall,
    /// The running version, which is the latest or newer.
    UpToDate(String),
    /// A newer release is out.
    Available { current: String, latest: String },
}

/// What looking for an update finds: an installation by the package manager
/// is left to it; else the running version `current` is compared with the
/// latest release's `latest`. `None` when either is not a semantic version.
pub fn check_for_update(aur_install: bool, current: &str, latest: &str) -> (r: Option<UpdateView>)
    ensures
        aur_install ==> r matches Some(UpdateView::AurInstall),
        !aur_install ==> match version_newer(current@, latest@) {
            None => r is None,
            Some(true) => r matches Some(UpdateView::Available { current: c, latest: l }) && c@ == current@ && l@ == latest@,
            Some(false) => r matches Some(UpdateView::UpToDate(v)) && v@ == current@,
        },
{
    if aur_install {
        return Some(UpdateView::AurInstall);
    }
    match newer_version(current, latest) {
        None => None,
        Some(true) => Some(UpdateView::Available { current: String::from_str(current), latest: String::from_str(latest) }),
        Some(false) => Some(UpdateView::UpToDate(String::from_str(current))),
    }
}

/// The messages of `update` for what the check found, and whether to go on
/// and install the newer release: only when one is available and the user did
/// not ask to check only.
pub fn self_update_plan(check: UpdateView, check_only: bool) -> (r: (Vec<CliMessage>, bool))
    ensures
        match check {
            UpdateView::AurInstall => !r.1 && r.0@.len() == 2
                && (r.0@[0] matches CliMessage::Info(t) && t@ == "md-docs was installed via your system package manager."@)
                && (r.0@[1] matches CliMessage::Info(t) && t@ == "Update using your AUR helper (e.g., yay -Syu md-docs)."@),
            UpdateView::UpToDate(v) => !r.1 && r.0@.len() == 1
                && (r.0@[0] matches CliMessage::Success(t) && t@ == "md-docs v"@ + v@ + " is already up to date."@),
            UpdateView::Available { current, latest } => r.1 == !check_only && r.0@.len() == 1
                && (r.0@[0] matches CliMessage::Info(t) && t@ == "Update available: v"@ + current@ + " -> v"@ + latest@),
        },
{
    let mut msgs: Vec<CliMessage> = Vec::new();
    match check {
        UpdateView::AurInstall => {
            msgs.push(CliMessage::Info(String::from_str("md-docs was installed via your system package manager.")));
            let ghost first = msgs@[0];
            msgs.push(CliMessage::Info(String::from_str("Update using your AUR helper (e.g., yay -Syu md-docs).")));
            assert(msgs@[0] == first);
            (msgs, false)
        },
        UpdateView::UpToDate(v) => {
            msgs.push(CliMessage::Success(cat3("md-docs v", v.as_str(), " is already up to date.")));
            (msgs, false)
        },
        UpdateView::Available { current, latest } => {
            proof {
                reveal_strlit("");
            }
            msgs.push(CliMessage::Info(cat5("Update available: v", current.as_str(), " -> v", latest.as_str(), "")));
            (msgs, !check_only)
        },
    }
}

} // verus!
