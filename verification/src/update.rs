//! What a newer release means for the installed program.

use vstd::prelude::*;
use crate::event::CoreEvent;
use crate::text::{
    append_str, chars_of, chars_views, find_from, first_of, parse_unsigned, part, same_text, split, split_of, string_of,
    unsigned_of,
};
use crate::types::clone_opt;

verus! {

/// A text without the letters `v` it starts with.
pub open spec fn without_v(s: Seq<char>) -> Seq<char>
    decreases s.len(),
{
    if s.len() > 0 && s[0] == 'v' {
        without_v(s.drop_first())
    } else {
        s
    }
}

/// The version that a text names: its first three numbers.
pub open spec fn version_of(s: Seq<char>) -> Option<(u64, u64, u64)> {
    let p = split_of(without_v(s), '.');
    if p.len() < 3 {
        None
    } else {
        match (
            unsigned_of(p[0], u64::MAX as nat),
            unsigned_of(p[1], u64::MAX as nat),
            unsigned_of(p[2], u64::MAX as nat),
        ) {
            (Some(a), Some(b), Some(c)) => Some((a as u64, b as u64, c as u64)),
            _ => None,
        }
    }
}

/// Whether version `a` comes after version `b`.
pub open spec fn newer(a: (u64, u64, u64), b: (u64, u64, u64)) -> bool {
    a.0 > b.0 || (a.0 == b.0 && (a.1 > b.1 || (a.1 == b.1 && a.2 > b.2)))
}

/// Of two versions one is newer, or they are the same.
pub proof fn versions_are_ordered(a: (u64, u64, u64), b: (u64, u64, u64), c: (u64, u64, u64))
    ensures
        newer(a, b) || newer(b, a) || a == b,
        !(newer(a, b) && newer(b, a)),
        newer(a, b) && newer(b, c) ==> newer(a, c),
{
}

pub fn parse_version(v: &str) -> (r: Option<(u64, u64, u64)>)
    ensures
        r == version_of(v@),
{
    let s = chars_of(v);
    let n: usize = s.len();
    let mut i: usize = 0;
    assert(s@.skip(0) =~= s@);
    while i < n && s[i] == 'v'
        invariant
            i <= n == s@.len(),
            without_v(s@.skip(i as int)) == without_v(s@),
        decreases n - i,
    {
        assert(s@.skip(i as int).drop_first() =~= s@.skip(i + 1));
        i = i + 1;
    }
    let rest = part(&s, i, n);
    assert(rest@ =~= s@.skip(i as int));
    let p = split(&rest, '.');
    let ghost views = chars_views(p@);
    assert(views.len() == p@.len());
    if p.len() < 3 {
        return None;
    }
    assert(views[0] == p@[0]@ && views[1] == p@[1]@ && views[2] == p@[2]@);
    match (parse_unsigned(&p[0], u64::MAX), parse_unsigned(&p[1], u64::MAX), parse_unsigned(&p[2], u64::MAX)) {
        (Some(a), Some(b), Some(c)) => Some((a, b, c)),
        _ => None,
    }
}

/// What a release is called, and its files with their addresses.
pub struct Release {
    pub tag: Option<String>,
    pub assets: Vec<(Option<String>, Option<String>)>,
}

pub struct ReleaseView {
    pub tag: Option<Seq<char>>,
    pub assets: Seq<(Option<Seq<char>>, Option<Seq<char>>)>,
}

pub open spec fn text_view(s: Option<String>) -> Option<Seq<char>> {
    match s {
        Some(t) => Some(t@),
        None => None,
    }
}

impl View for Release {
    type V = ReleaseView;

    open spec fn view(&self) -> ReleaseView {
        ReleaseView {
            tag: text_view(self.tag),
            assets: self.assets@.map_values(
                |a: (Option<String>, Option<String>)| (text_view(a.0), text_view(a.1)),
            ),
        }
    }
}

pub open spec fn text_views(v: Seq<Option<String>>) -> Seq<Option<Seq<char>>> {
    v.map_values(|s: Option<String>| text_view(s))
}

/// The text that `serde_json` reads under a key of a document, or why it cannot read the
/// document.
pub uninterp spec fn json_text_at(body: Seq<u8>, key: Seq<char>) -> Result<Option<Seq<char>>, Seq<char>>;

/// The texts that `serde_json` reads under a key of each entry of a list of a document, or why it
/// cannot read the document.
pub uninterp spec fn json_texts_at(
    body: Seq<u8>,
    list: Seq<char>,
    key: Seq<char>,
) -> Result<Option<Seq<Option<Seq<char>>>>, Seq<char>>;

/// `serde_json::from_slice` to a `Value`, indexing by the key and `Value::as_str`: the text there,
/// nothing where there is none. The result is named `json_text_at`.
#[verifier::external_body]
fn json_text(body: &[u8], key: &str) -> (r: Result<Option<String>, String>)
    ensures
        match r {
            Ok(v) => json_text_at(body@, key@) == Ok::<Option<Seq<char>>, Seq<char>>(text_view(v)),
            Err(e) => json_text_at(body@, key@) == Err::<Option<Seq<char>>, Seq<char>>(e@),
        },
{
    let json: serde_json::Value = serde_json::from_slice(body).map_err(|e| e.to_string())?;
    Ok(json[key].as_str().map(str::to_string))
}

/// `serde_json::from_slice` to a `Value`, indexing by the name of the list, `Value::as_array`, and
/// for each entry indexing by the key and `Value::as_str`: the text of each entry, nothing where
/// there is no list. The result is named `json_texts_at`.
#[verifier::external_body]
fn json_list_texts(body: &[u8], list: &str, key: &str) -> (r: Result<Option<Vec<Option<String>>>, String>)
    ensures
        match r {
            Ok(Some(v)) => json_texts_at(body@, list@, key@) == Ok::<Option<Seq<Option<Seq<char>>>>, Seq<char>>(
                Some(text_views(v@)),
            ),
            Ok(None) => json_texts_at(body@, list@, key@) == Ok::<Option<Seq<Option<Seq<char>>>>, Seq<char>>(None),
            Err(e) => json_texts_at(body@, list@, key@) == Err::<Option<Seq<Option<Seq<char>>>>, Seq<char>>(e@),
        },
{
    let json: serde_json::Value = serde_json::from_slice(body).map_err(|e| e.to_string())?;
    let texts = json[list].as_array().map(|v| v.iter().map(|a| a[key].as_str().map(str::to_string)).collect());
    Ok(texts)
}

/// The files of a release: what each is called and where it is.
pub open spec fn assets_of(
    names: Option<Seq<Option<Seq<char>>>>,
    urls: Option<Seq<Option<Seq<char>>>>,
) -> Seq<(Option<Seq<char>>, Option<Seq<char>>)> {
    match (names, urls) {
        (Some(n), Some(u)) => Seq::new(
            if n.len() < u.len() {
                n.len()
            } else {
                u.len()
            },
            |i: int| (n[i], u[i]),
        ),
        _ => seq![],
    }
}

/// What the description of a release says, or why it cannot be read.
pub open spec fn release_in(body: Seq<u8>) -> Result<ReleaseView, Seq<char>> {
    match (
        json_text_at(body, "tag_name"@),
        json_texts_at(body, "assets"@, "name"@),
        json_texts_at(body, "assets"@, "browser_download_url"@),
    ) {
        (Err(e), _, _) => Err(e),
        (_, Err(e), _) => Err(e),
        (_, _, Err(e)) => Err(e),
        (Ok(tag), Ok(names), Ok(urls)) => Ok(ReleaseView { tag, assets: assets_of(names, urls) }),
    }
}

pub open spec fn opt_texts(v: Option<Vec<Option<String>>>) -> Option<Seq<Option<Seq<char>>>> {
    match v {
        Some(v) => Some(text_views(v@)),
        None => None,
    }
}

/// The files of a release: what each is called and where it is.
pub fn release_of(tag: Option<String>, names: Option<Vec<Option<String>>>, urls: Option<Vec<Option<String>>>) -> (r: Release)
    ensures
        r@ == (ReleaseView { tag: text_view(tag), assets: assets_of(opt_texts(names), opt_texts(urls)) }),
{
    let mut assets: Vec<(Option<String>, Option<String>)> = Vec::new();
    if let (Some(n), Some(u)) = (&names, &urls) {
        let mut i: usize = 0;
        while i < n.len() && i < u.len()
            invariant
                i <= n@.len(),
                i <= u@.len(),
                assets@.len() == i,
                forall|j: int|
                    0 <= j < i ==> text_view((#[trigger] assets@[j]).0) == text_view(n@[j]) && text_view(assets@[j].1)
                        == text_view(u@[j]),
            decreases n@.len() - i,
        {
            assets.push((clone_opt(&n[i]), clone_opt(&u[i])));
            i = i + 1;
        }
    }
    let r = Release { tag, assets };
    assert(r@.assets =~= assets_of(opt_texts(names), opt_texts(urls)));
    r
}

/// What the description of a release says, or why it cannot be read.
pub fn read_release(body: &[u8]) -> (r: Result<Release, String>)
    ensures
        match r {
            Ok(v) => release_in(body@) == Ok::<ReleaseView, Seq<char>>(v@),
            Err(e) => release_in(body@) == Err::<ReleaseView, Seq<char>>(e@),
        },
{
    let tag = match json_text(body, "tag_name") {
        Ok(t) => t,
        Err(e) => {
            return Err(e);
        },
    };
    let names = match json_list_texts(body, "assets", "name") {
        Ok(v) => v,
        Err(e) => {
            return Err(e);
        },
    };
    let urls = match json_list_texts(body, "assets", "browser_download_url") {
        Ok(v) => v,
        Err(e) => {
            return Err(e);
        },
    };
    Ok(release_of(tag, names, urls))
}

/// What to do about the latest release.
#[derive(Debug)]
pub enum UpdatePlan {
    /// The running program is the latest.
    Current,
    /// The release has no file for this platform yet.
    NotReady,
    Download { tag: String, url: String },
}

pub enum PlanView {
    Current,
    NotReady,
    Download { tag: Seq<char>, url: Seq<char> },
}

impl View for UpdatePlan {
    type V = PlanView;

    open spec fn view(&self) -> PlanView {
        match self {
            UpdatePlan::Current => PlanView::Current,
            UpdatePlan::NotReady => PlanView::NotReady,
            UpdatePlan::Download { tag, url } => PlanView::Download { tag: tag@, url: url@ },
        }
    }
}

pub open spec fn planned(r: Result<UpdatePlan, String>) -> Result<PlanView, Seq<char>> {
    match r {
        Ok(p) => Ok(p@),
        Err(e) => Err(e@),
    }
}

/// The address of the first file of a name.
pub open spec fn asset_url(v: Seq<(Option<Seq<char>>, Option<Seq<char>>)>, name: Seq<char>) -> Option<Seq<char>>
    decreases v.len(),
{
    if v.len() == 0 {
        None
    } else if v[0].0 == Some(name) {
        v[0].1
    } else {
        asset_url(v.drop_first(), name)
    }
}

/// What to do about a release, for the running version and the platform.
pub open spec fn release_plan_of(v: ReleaseView, suffix: Seq<char>, running: Seq<char>) -> Result<PlanView, Seq<char>> {
    match v.tag {
        None => Err("release info has no tag_name"@),
        Some(tag) => match version_of(tag) {
            None => Err("unrecognized release tag "@ + tag),
            Some(latest) => match version_of(running) {
                None => Err("running version is not semver"@),
                Some(now) => if !newer(latest, now) {
                    Ok(PlanView::Current)
                } else {
                    match asset_url(v.assets, "medley-"@ + suffix) {
                        None => Ok(PlanView::NotReady),
                        Some(url) => Ok(PlanView::Download { tag, url }),
                    }
                },
            },
        },
    }
}

/// What to do about a release, for the running version and the platform.
pub fn release_plan(release: &Release, suffix: &str, running: &str) -> (r: Result<UpdatePlan, String>)
    ensures
        planned(r) == release_plan_of(release@, suffix@, running@),
{
    let tag = match &release.tag {
        None => {
            return Err("release info has no tag_name".to_owned());
        },
        Some(t) => t,
    };
    let latest = match parse_version(tag) {
        None => {
            let mut m = "unrecognized release tag ".to_owned();
            m.append(tag);
            return Err(m);
        },
        Some(v) => v,
    };
    let now = match parse_version(running) {
        None => {
            return Err("running version is not semver".to_owned());
        },
        Some(v) => v,
    };
    let is_newer: bool = latest.0 > now.0 || (latest.0 == now.0 && (latest.1 > now.1 || (latest.1 == now.1
        && latest.2 > now.2)));
    if !is_newer {
        return Ok(UpdatePlan::Current);
    }
    let mut asset = "medley-".to_owned();
    asset.append(suffix);
    let ghost all = release@.assets;
    let mut i: usize = 0;
    assert(all.skip(0) =~= all);
    while i < release.assets.len()
        invariant
            i <= release.assets@.len(),
            all == release@.assets,
            asset_url(all.skip(i as int), asset@) == asset_url(all, asset@),
            asset@ == "medley-"@ + suffix@,
            release@.tag == Some(tag@),
            version_of(tag@) == Some(latest),
            version_of(running@) == Some(now),
            newer(latest, now),
        decreases release.assets@.len() - i,
    {
        let ghost rest = all.skip(i as int);
        assert(rest[0] == all[i as int]);
        assert(rest.drop_first() =~= all.skip(i + 1));
        let hit: bool = match &release.assets[i].0 {
            Some(n) => *n == asset,
            None => false,
        };
        if hit {
            return match &release.assets[i].1 {
                Some(u) => Ok(UpdatePlan::Download { tag: tag.clone(), url: u.clone() }),
                None => Ok(UpdatePlan::NotReady),
            };
        }
        i = i + 1;
    }
    Ok(UpdatePlan::NotReady)
}

/// What to do about the latest release, whose description is `body`.
pub fn plan_update(body: &[u8], suffix: &str, running: &str) -> (r: Result<UpdatePlan, String>)
    ensures
        planned(r) == (match release_in(body@) {
            Ok(v) => release_plan_of(v, suffix@, running@),
            Err(e) => Err("unreadable release info: "@ + e),
        }),
{
    match read_release(body) {
        Ok(v) => release_plan(&v, suffix, running),
        Err(e) => {
            let mut m = "unreadable release info: ".to_owned();
            m.append(&e);
            Err(m)
        },
    }
}

/// How the release files of a platform end.
pub open spec fn suffix_of(os: Seq<char>, arch: Seq<char>) -> Option<Seq<char>> {
    if os == "linux"@ && arch == "x86_64"@ {
        Some("linux-x86_64"@)
    } else if os == "linux"@ && arch == "aarch64"@ {
        Some("linux-arm64"@)
    } else if os == "macos"@ && arch == "x86_64"@ {
        Some("macos-x86_64"@)
    } else if os == "macos"@ && arch == "aarch64"@ {
        Some("macos-aarch64"@)
    } else {
        None
    }
}

/// How the release files of a platform end, or that there are none.
pub fn platform_suffix(os: &str, arch: &str) -> (r: Result<String, String>)
    ensures
        match r {
            Ok(s) => suffix_of(os@, arch@) == Some(s@),
            Err(e) => suffix_of(os@, arch@) is None && e@ == "no release binary for "@ + os@ + "-"@ + arch@,
        },
{
    if same_text(os, "linux") && same_text(arch, "x86_64") {
        return Ok("linux-x86_64".to_owned());
    }
    if same_text(os, "linux") && same_text(arch, "aarch64") {
        return Ok("linux-arm64".to_owned());
    }
    if same_text(os, "macos") && same_text(arch, "x86_64") {
        return Ok("macos-x86_64".to_owned());
    }
    if same_text(os, "macos") && same_text(arch, "aarch64") {
        return Ok("macos-aarch64".to_owned());
    }
    let mut m = "no release binary for ".to_owned();
    m.append(os);
    m.append("-");
    m.append(arch);
    Err(m)
}

pub open spec fn is_piece() -> spec_fn(Seq<char>) -> bool {
    |p: Seq<char>| p.len() > 0 && p != seq!['.']
}

/// The names that a path leads through.
pub open spec fn path_pieces(s: Seq<char>) -> Seq<Seq<char>> {
    split_of(s, '/').filter(is_piece())
}

/// Whether an absolute path leads through the directory of this name at the root.
pub open spec fn under(s: Seq<char>, dir: Seq<char>) -> bool {
    s.len() > 0 && s[0] == '/' && path_pieces(s).len() > 0 && path_pieces(s)[0] == dir
}

/// Whether a package manager owns what is at a path.
pub open spec fn managed(s: Seq<char>) -> bool {
    ||| under(s, "usr"@)
    ||| under(s, "bin"@)
    ||| under(s, "sbin"@)
    ||| under(s, "opt"@)
    ||| under(s, "nix"@)
    ||| under(s, "snap"@)
    ||| (under(s, "var"@) && path_pieces(s).len() > 1 && path_pieces(s)[1] == "lib"@)
    ||| first_of(s, "/Cellar/"@) is Some
}

/// The names that a path leads through.
pub fn pieces(s: &[char]) -> (r: Vec<Vec<char>>)
    ensures
        chars_views(r@) == path_pieces(s@),
{
    let all = split(s, '/');
    let ghost views = chars_views(all@);
    let mut out: Vec<Vec<char>> = Vec::new();
    let mut i: usize = 0;
    proof {
        reveal(Seq::filter);
        assert(chars_views(out@) =~= views.take(0).filter(is_piece()));
    }
    while i < all.len()
        invariant
            i <= all@.len(),
            views == chars_views(all@),
            chars_views(out@) == views.take(i as int).filter(is_piece()),
        decreases all@.len() - i,
    {
        proof {
            views.take(i as int).lemma_filter_push(views[i as int], is_piece());
            assert(views.take(i + 1) =~= views.take(i as int).push(views[i as int]));
            assert(views[i as int] == all@[i as int]@);
        }
        let n: usize = all[i].len();
        let dot: bool = n == 1 && all[i][0] == '.';
        assert(dot == (all@[i as int]@ =~= seq!['.']));
        if n > 0 && !dot {
            let ghost before = out@;
            out.push(part(&all[i], 0, n));
            assert(out@[before.len() as int]@ =~= views[i as int]);
            assert(chars_views(out@) =~= chars_views(before).push(views[i as int]));
        }
        i = i + 1;
    }
    assert(views.take(i as int) =~= views);
    out
}

fn is_name(p: &Vec<char>, name: &str) -> (r: bool)
    ensures
        r == (p@ == name@),
{
    crate::text::same_chars(p, &chars_of(name))
}

/// Whether a package manager owns what is at a path.
pub fn is_managed(path: &str) -> (r: bool)
    ensures
        r == managed(path@),
{
    let s = chars_of(path);
    if find_from(&s, &chars_of("/Cellar/"), 0).is_some() {
        return true;
    }
    if s.len() == 0 || s[0] != '/' {
        return false;
    }
    let p = pieces(&s);
    let ghost views = chars_views(p@);
    assert(views.len() == p@.len());
    if p.len() == 0 {
        return false;
    }
    assert(views[0] == p@[0]@);
    if is_name(&p[0], "usr") || is_name(&p[0], "bin") || is_name(&p[0], "sbin") || is_name(&p[0], "opt")
        || is_name(&p[0], "nix") || is_name(&p[0], "snap") {
        return true;
    }
    if p.len() > 1 {
        assert(views[1] == p@[1]@);
    }
    is_name(&p[0], "var") && p.len() > 1 && is_name(&p[1], "lib")
}

/// Which program found on the search path is to lead to the installed one: none where there is
/// none or it leads there already; it is refused where a package manager owns it. `resolved` is
/// where the found program leads.
pub fn link_to_replace(found: Option<String>, reaches: bool, resolved: &str) -> (r: Result<Option<String>, String>)
    ensures
        match found {
            None => r == Ok::<Option<String>, String>(None),
            Some(f) => if reaches {
                r == Ok::<Option<String>, String>(None)
            } else if managed(f@) || managed(resolved@) {
                r matches Err(e) && e@ == f@ + " is owned by a package manager; update it there"@
            } else {
                r == Ok::<Option<String>, String>(Some(f))
            },
        },
{
    match found {
        None => Ok(None),
        Some(f) => if reaches {
            Ok(None)
        } else if is_managed(&f) || is_managed(resolved) {
            let mut m = f.clone();
            m.append(" is owned by a package manager; update it there");
            Err(m)
        } else {
            Ok(Some(f))
        },
    }
}

/// What is said once a release was installed.
pub fn installed_message(tag: &str) -> (r: String)
    ensures
        r@ == tag@ + " is ready; restart to use it"@,
{
    let mut m = tag.to_owned();
    m.append(" is ready; restart to use it");
    m
}

/// How a look for a release ended.
#[derive(Debug)]
pub enum Outcome {
    Current,
    /// The release has no file for this platform yet.
    NotReady,
    /// It is installed, with what to say.
    Installed(String),
}

/// What is told of a look for a release that nobody asked for: only an installed release and a
/// failure.
pub fn quiet_update_event(outcome: Result<Outcome, String>) -> (r: Option<CoreEvent>)
    ensures
        match outcome {
            Ok(Outcome::Installed(m)) => r == Some(CoreEvent::UpdateResult(Ok(m))),
            Ok(_) => r is None,
            Err(e) => r matches Some(CoreEvent::BackgroundFailure { context, message }) && context@ == "update"@
                && message == e,
        },
{
    match outcome {
        Ok(Outcome::Installed(m)) => Some(CoreEvent::UpdateResult(Ok(m))),
        Ok(_) => None,
        Err(message) => Some(CoreEvent::BackgroundFailure { context: "update".to_owned(), message }),
    }
}

pub open spec fn asked_update_of(outcome: Result<Outcome, String>, version: Seq<char>) -> Result<Seq<char>, Seq<char>> {
    match outcome {
        Ok(Outcome::Installed(m)) => Ok(m@),
        Ok(Outcome::Current) => Ok("already up to date (v"@ + version + ")"@),
        Ok(Outcome::NotReady) => Err("the new release has no binary for this platform yet"@),
        Err(e) => Err(e@),
    }
}

/// What is told of a look for a release that the user asked for.
pub fn asked_update_result(outcome: Result<Outcome, String>, version: &str) -> (r: Result<String, String>)
    ensures
        match r {
            Ok(m) => asked_update_of(outcome, version@) == Ok::<Seq<char>, Seq<char>>(m@),
            Err(e) => asked_update_of(outcome, version@) == Err::<Seq<char>, Seq<char>>(e@),
        },
{
    match outcome {
        Ok(Outcome::Installed(m)) => Ok(m),
        Ok(Outcome::Current) => {
            let mut v: Vec<char> = Vec::new();
            append_str(&mut v, "already up to date (v");
            append_str(&mut v, version);
            append_str(&mut v, ")");
            assert(v@ =~= "already up to date (v"@ + version@ + ")"@);
            Ok(string_of(&v))
        },
        Ok(Outcome::NotReady) => Err("the new release has no binary for this platform yet".to_owned()),
        Err(e) => Err(e),
    }
}

} // verus!
