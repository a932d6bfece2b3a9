//! The decisions of the command-line program: where its settings come
//! from, which release a tag names, and how a listing is laid out.

use vstd::prelude::*;

use crate::config::{opt_view, prefer};
use crate::structs::release::{CreateReleaseOption, Release};
use crate::{Error, Result};

verus! {

/// The server address: from the command line (or its environment
/// variable) if given, else from the configuration files.
pub fn resolve_gitea_url(from_args: Option<String>, from_config: Option<String>) -> (r: Result<
    String,
>)
    ensures
        r is Ok <==> from_args is Some || from_config is Some,
        r matches Ok(url) ==> Some(url@) == prefer(opt_view(from_args), opt_view(from_config)),
        r matches Err(e) ==> e is MissingGiteaUrl,
{
    match from_args {
        Some(url) => Ok(url),
        None => match from_config {
            Some(url) => Ok(url),
            None => Err(Error::MissingGiteaUrl),
        },
    }
}

/// The fully qualified repository name `owner/repo`: from the command line
/// (or its environment variable) if given, else joined from the `owner`
/// and `repo` settings of the configuration files, which must both be set.
pub fn resolve_repo_fqrn(
    from_args: Option<String>,
    config_owner: Option<String>,
    config_repo: Option<String>,
) -> (r: Result<String>)
    ensures
        r is Ok <==> from_args is Some || (config_owner is Some && config_repo is Some),
        r matches Ok(fqrn) ==> fqrn@ == if from_args is Some {
            from_args->0@
        } else {
            config_owner->0@ + "/"@ + config_repo->0@
        },
        r matches Err(e) ==> e is MissingRepoFRQN,
{
    match from_args {
        Some(fqrn) => Ok(fqrn),
        None => match (config_owner, config_repo) {
            (Some(owner), Some(repo)) => {
                let mut fqrn = owner;
                fqrn.append("/");
                fqrn.append(repo.as_str());
                Ok(fqrn)
            },
            _ => Err(Error::MissingRepoFRQN),
        },
    }
}

/// The access token: from the environment variable `RELEASE_KEY_GITEA` if
/// set, else from the configuration files.
pub fn resolve_token(from_env: Option<String>, from_config: Option<String>) -> (r: Option<String>)
    ensures
        opt_view(r) == prefer(opt_view(from_env), opt_view(from_config)),
{
    match from_env {
        Some(token) => Some(token),
        None => from_config,
    }
}

/// The value of the `Authorization` header for token authentication.
pub fn authorization_value(token: &str) -> (r: String)
    ensures
        r@ == "token "@ + token@,
{
    let mut value = "token ".to_owned();
    value.append(token);
    value
}

/// The `User-Agent` of the client, for package version `version`.
pub fn user_agent(version: &str) -> (r: String)
    ensures
        r@ == "gt-tools-agent-"@ + version@,
{
    let mut agent = "gt-tools-agent-".to_owned();
    agent.append(version);
    agent
}

/// The body of a request creating a release from the command line's
/// arguments; such a release is never a prerelease.
pub fn release_submission(
    body: String,
    draft: bool,
    name: String,
    tag_name: String,
    target_commitish: String,
) -> (r: CreateReleaseOption)
    ensures
        r.body == body,
        r.draft == draft,
        r.name == name,
        !r.prerelease,
        r.tag_name == tag_name,
        r.target_commitish == target_commitish,
{
    CreateReleaseOption { body, draft, name, prerelease: false, tag_name, target_commitish }
}

pub open spec fn has_tag(release: Release, tag: Seq<char>) -> bool {
    release.tag_name@ == tag
}

/// The ids of the releases tagged `tag`, in order.
pub open spec fn ids_with_tag(releases: Seq<Release>, tag: Seq<char>) -> Seq<usize>
    decreases releases.len(),
{
    if releases.len() == 0 {
        Seq::empty()
    } else {
        let earlier = ids_with_tag(releases.drop_last(), tag);
        if has_tag(releases.last(), tag) {
            earlier.push(releases.last().id)
        } else {
            earlier
        }
    }
}

/// No two releases carry the tag.
pub open spec fn tag_at_most_once(releases: Seq<Release>, tag: Seq<char>) -> bool {
    forall|i: int, j: int|
        0 <= i < releases.len() && 0 <= j < releases.len() && #[trigger] has_tag(releases[i], tag)
            && #[trigger] has_tag(releases[j], tag) ==> i == j
}

proof fn lemma_no_ids(releases: Seq<Release>, tag: Seq<char>)
    ensures
        ids_with_tag(releases, tag).len() == 0 <==> forall|i: int|
            0 <= i < releases.len() ==> !#[trigger] has_tag(releases[i], tag),
    decreases releases.len(),
{
    if releases.len() > 0 {
        let p = releases.drop_last();
        lemma_no_ids(p, tag);
        if !has_tag(releases.last(), tag) && ids_with_tag(releases, tag).len() == 0 {
            assert forall|i: int| 0 <= i < releases.len() implies !#[trigger] has_tag(
                releases[i],
                tag,
            ) by {
                if i < releases.len() - 1 {
                    assert(releases[i] == p[i]);
                }
            }
        }
        if forall|i: int| 0 <= i < releases.len() ==> !#[trigger] has_tag(releases[i], tag) {
            assert(!has_tag(releases[releases.len() - 1], tag));
            assert forall|i: int| 0 <= i < p.len() implies !#[trigger] has_tag(p[i], tag) by {
                assert(p[i] == releases[i]);
                assert(!has_tag(releases[i], tag));
            }
        }
    }
}

proof fn lemma_ids_at_most_one(releases: Seq<Release>, tag: Seq<char>)
    ensures
        ids_with_tag(releases, tag).len() <= 1 <==> tag_at_most_once(releases, tag),
    decreases releases.len(),
{
    if releases.len() > 0 {
        let n = releases.len() - 1;
        let p = releases.drop_last();
        lemma_ids_at_most_one(p, tag);
        lemma_no_ids(p, tag);
        if has_tag(releases.last(), tag) {
            if ids_with_tag(releases, tag).len() <= 1 {
                assert forall|i: int, j: int|
                    0 <= i < releases.len() && 0 <= j < releases.len() && #[trigger] has_tag(
                        releases[i],
                        tag,
                    ) && #[trigger] has_tag(releases[j], tag) implies i == j by {
                    if i < n {
                        assert(p[i] == releases[i]);
                    }
                    if j < n {
                        assert(p[j] == releases[j]);
                    }
                }
            }
            if tag_at_most_once(releases, tag) {
                assert forall|i: int| 0 <= i < p.len() implies !#[trigger] has_tag(p[i], tag) by {
                    assert(p[i] == releases[i]);
                    assert(has_tag(releases[n], tag));
                    if has_tag(releases[i], tag) {
                        assert(i == n);
                    }
                }
            }
        } else {
            if tag_at_most_once(p, tag) {
                assert forall|i: int, j: int|
                    0 <= i < releases.len() && 0 <= j < releases.len() && #[trigger] has_tag(
                        releases[i],
                        tag,
                    ) && #[trigger] has_tag(releases[j], tag) implies i == j by {
                    assert(i < n);
                    assert(j < n);
                    assert(p[i] == releases[i]);
                    assert(p[j] == releases[j]);
                }
            }
            if tag_at_most_once(releases, tag) {
                assert forall|i: int, j: int|
                    0 <= i < p.len() && 0 <= j < p.len() && #[trigger] has_tag(p[i], tag)
                        && #[trigger] has_tag(p[j], tag) implies i == j by {
                    assert(p[i] == releases[i]);
                    assert(p[j] == releases[j]);
                }
            }
        }
    }
}

/// The ids of the releases tagged `tag`, in order. At most one id comes
/// back exactly when no two releases carry the tag.
pub fn release_ids_with_tag(tag: &String, releases: &Vec<Release>) -> (r: Vec<usize>)
    ensures
        r@ == ids_with_tag(releases@, tag@),
        r.len() <= 1 <==> tag_at_most_once(releases@, tag@),
{
    let mut ids: Vec<usize> = Vec::new();
    let mut i: usize = 0;
    while i < releases.len()
        invariant
            i <= releases.len(),
            ids@ == ids_with_tag(releases@.take(i as int), tag@),
        decreases releases.len() - i,
    {
        proof {
            assert(releases@.take(i + 1).drop_last() =~= releases@.take(i as int));
            assert(releases@.take(i + 1).last() == releases@[i as int]);
        }
        if releases[i].tag_name == *tag {
            ids.push(releases[i].id);
        }
        i = i + 1;
    }
    proof {
        assert(releases@.take(i as int) =~= releases@);
        lemma_ids_at_most_one(releases@, tag@);
    }
    ids
}

/// Scans `releases` for the one tagged `tag`: `Some` of it when there is
/// one, `None` when there is none. No two releases may carry the tag
/// (check with [`release_ids_with_tag`]).
pub fn match_release_by_tag(tag: &String, releases: Vec<Release>) -> (r: Option<Release>)
    requires
        tag_at_most_once(releases@, tag@),
    ensures
        r is Some <==> exists|i: int| 0 <= i < releases@.len() && #[trigger] has_tag(releases@[i], tag@),
        r is Some <==> exists|i: int|
            #![trigger releases@[i]]
            0 <= i < releases@.len() && releases@[i].tag_name@ == tag@,
        r matches Some(found) ==> has_tag(found, tag@) && releases@.contains(found),
        r matches Some(found) ==> found.tag_name@ == tag@,
        r matches Some(found) ==> forall|i: int|
            0 <= i < releases@.len() && #[trigger] has_tag(releases@[i], tag@) ==> releases@[i]
                == found,
{
    let ghost all = releases@;
    let mut remaining = releases;
    let mut release: Option<Release> = None;
    while remaining.len() > 0
        invariant
            remaining.len() <= all.len(),
            remaining@ == all.take(remaining.len() as int),
            release is Some <==> exists|i: int|
                remaining.len() <= i < all.len() && #[trigger] has_tag(all[i], tag@),
            release matches Some(found) ==> has_tag(found, tag@) && all.contains(found),
        decreases remaining.len(),
    {
        let rel = remaining.pop().unwrap();
        proof {
            assert(rel == all[remaining.len() as int]);
            assert(remaining@ =~= all.take(remaining.len() as int));
            assert(has_tag(all[remaining.len() as int], tag@) <==> rel.tag_name@ == tag@);
        }
        if rel.tag_name == *tag {
            release = Some(rel);
        }
    }
    proof {
        if release is Some {
            let found = release->0;
            let k = choose|k: int| 0 <= k < all.len() && all[k] == found;
            assert(has_tag(all[k], tag@));
        } else {
            assert forall|i: int| 0 <= i < all.len() implies all[i].tag_name@ != tag@ by {
                assert(!has_tag(all[i], tag@));
            }
        }
    }
    release
}

/// The project whose settings are looked up: the one named on the command
/// line if any, else the current directory.
pub fn resolve_project(from_args: Option<String>, current_dir: String) -> (r: String)
    ensures
        r@ == if from_args is Some {
            from_args->0@
        } else {
            current_dir@
        },
{
    match from_args {
        Some(project) => project,
        None => current_dir,
    }
}

/// `items` with `sep` between each two of them.
pub open spec fn interspersed(items: Seq<Seq<char>>, sep: Seq<char>) -> Seq<Seq<char>>
    decreases items.len(),
{
    if items.len() <= 1 {
        items
    } else {
        interspersed(items.drop_last(), sep).push(sep).push(items.last())
    }
}

/// `Itertools::intersperse` on a list of strings, collected. The contract
/// claims that the separator is cloned between each two items and nowhere
/// else, as the crate documents.
#[verifier::external_body]
fn intersperse_lines(lines: Vec<String>, separator: String) -> (r: Vec<String>)
    ensures
        r.deep_view() == interspersed(lines.deep_view(), separator@),
{
    itertools::Itertools::intersperse(lines.into_iter(), separator).collect()
}

/// The lines of a release listing, given one rendered entry per release in
/// the server's order (newest first): the newest entry comes last, so that
/// it stays next to the prompt, and an empty line separates entries.
pub fn release_listing(entries: &Vec<String>) -> (r: Vec<String>)
    ensures
        r.deep_view() == interspersed(entries.deep_view().reverse(), ""@),
{
    let n = entries.len();
    let ghost all = entries.deep_view();
    let mut reversed: Vec<String> = Vec::new();
    let mut i: usize = 0;
    while i < n
        invariant
            n == entries.len(),
            all == entries.deep_view(),
            i <= n,
            reversed.deep_view() =~= all.reverse().take(i as int),
        decreases n - i,
    {
        let entry = entries[n - 1 - i].clone();
        let ghost before = reversed.deep_view();
        reversed.push(entry);
        proof {
            assert(reversed.deep_view() =~= before.push(entry@));
            assert(all.reverse().take(i + 1) =~= all.reverse().take(i as int).push(all[n - 1 - i]));
        }
        i = i + 1;
    }
    proof {
        assert(all.reverse().take(n as int) =~= all.reverse());
    }
    intersperse_lines(reversed, "".to_owned())
}


/// What the existence check of one file to upload found.
#[derive(Debug, PartialEq, Eq, Structural)]
pub enum FileCheck {
    Exists,
    Missing,
    /// The check itself could not be done (for example, no permission).
    Unknown,
}

/// Whether an upload may start, judged on the files' existence checks in
/// order: the first file that is not known to exist stops it.
#[derive(Debug, PartialEq, Eq, Structural)]
pub enum UploadPrecheck {
    AllPresent,
    /// The file at this index does not exist.
    Missing(usize),
    /// The existence of the file at this index could not be checked.
    Unchecked(usize),
}

/// The index of the first check that is not `Exists`, or the number of
/// checks when there is none.
pub open spec fn first_not_present(checks: Seq<FileCheck>) -> int
    decreases checks.len(),
{
    if checks.len() == 0 {
        0
    } else if first_not_present(checks.drop_last()) < checks.len() - 1 {
        first_not_present(checks.drop_last())
    } else if checks.last() == FileCheck::Exists {
        checks.len() as int
    } else {
        checks.len() - 1
    }
}

/// Decides, before any file is uploaded, whether all of them exist; the
/// first file that is missing, or whose existence could not be checked,
/// is reported.
pub fn upload_precheck(checks: &Vec<FileCheck>) -> (r: UploadPrecheck)
    ensures
        ({
            let k = first_not_present(checks@);
            match r {
                UploadPrecheck::AllPresent => k == checks@.len(),
                UploadPrecheck::Missing(i) => i == k && checks@[k] == FileCheck::Missing,
                UploadPrecheck::Unchecked(i) => i == k && checks@[k] == FileCheck::Unknown,
            }
        }),
        r == UploadPrecheck::AllPresent <==> forall|i: int|
            0 <= i < checks@.len() ==> checks@[i] == FileCheck::Exists,
{
    let mut i: usize = 0;
    while i < checks.len()
        invariant
            i <= checks.len(),
            first_not_present(checks@.take(i as int)) == i,
            forall|j: int| 0 <= j < i ==> checks@[j] == FileCheck::Exists,
        decreases checks.len() - i,
    {
        proof {
            assert(checks@.take(i + 1).drop_last() =~= checks@.take(i as int));
            lemma_first_not_present_prefix(checks@, i as int);
        }
        match checks[i] {
            FileCheck::Exists => {},
            FileCheck::Missing => {
                return UploadPrecheck::Missing(i);
            },
            FileCheck::Unknown => {
                return UploadPrecheck::Unchecked(i);
            },
        }
        i = i + 1;
    }
    proof {
        assert(checks@.take(i as int) =~= checks@);
    }
    UploadPrecheck::AllPresent
}

/// Once a prefix of the checks is all `Exists`, the first check that is not
/// decides for the whole list.
proof fn lemma_first_not_present_prefix(checks: Seq<FileCheck>, i: int)
    requires
        0 <= i < checks.len(),
        first_not_present(checks.take(i)) == i,
    ensures
        checks[i] != FileCheck::Exists ==> first_not_present(checks) == i,
        checks[i] == FileCheck::Exists ==> first_not_present(checks.take(i + 1)) == i + 1,
    decreases checks.len(),
{
    assert(checks.take(i + 1).drop_last() =~= checks.take(i));
    if checks[i] != FileCheck::Exists {
        lemma_first_not_present_stable(checks, i + 1);
    }
}

/// The first check that is not `Exists` within a prefix stays the first in
/// the whole list.
proof fn lemma_first_not_present_stable(checks: Seq<FileCheck>, n: int)
    requires
        0 < n <= checks.len(),
        first_not_present(checks.take(n)) < n,
    ensures
        first_not_present(checks) == first_not_present(checks.take(n)),
    decreases checks.len() - n,
{
    if n < checks.len() {
        assert(checks.take(n + 1).drop_last() =~= checks.take(n));
        lemma_first_not_present_stable(checks, n + 1);
    } else {
        assert(checks.take(n) =~= checks);
    }
}

/// A release carries a tag exactly when its tag name is that tag, character
/// for character: a tag that is a prefix of another does not match it.
pub proof fn lemma_has_tag_exact(release: Release, tag: Seq<char>)
    ensures
        has_tag(release, tag) <==> release.tag_name@ == tag,
{
}

/// The ids that a tag selects are those of the releases whose tag name
/// equals the tag, in order.
pub proof fn lemma_ids_are_those_of_exact_tag(releases: Seq<Release>, tag: Seq<char>)
    ensures
        ids_with_tag(releases, tag) == releases.filter(|x: Release| x.tag_name@ == tag).map_values(
            |x: Release| x.id,
        ),
    decreases releases.len(),
{
    reveal(Seq::filter);
    let pred = |x: Release| x.tag_name@ == tag;
    if releases.len() == 0 {
        assert(releases.filter(pred) =~= Seq::<Release>::empty());
        assert(releases.filter(pred).map_values(|x: Release| x.id) =~= Seq::<usize>::empty());
    } else {
        lemma_ids_are_those_of_exact_tag(releases.drop_last(), tag);
        let rest = releases.drop_last().filter(pred);
        if pred(releases.last()) {
            assert(releases.filter(pred) == rest.push(releases.last()));
            assert(rest.push(releases.last()).map_values(|x: Release| x.id) =~= rest.map_values(
                |x: Release| x.id,
            ).push(releases.last().id));
        } else {
            assert(releases.filter(pred) == rest);
        }
    }
}

/// An interspersed list alternates: items at even positions, in their
/// order, and the separator at every odd position; `n` items give
/// `2n - 1` entries (none for none).
pub proof fn lemma_interspersed_alternates(items: Seq<Seq<char>>, sep: Seq<char>)
    ensures
        items.len() == 0 ==> interspersed(items, sep).len() == 0,
        items.len() > 0 ==> interspersed(items, sep).len() == 2 * items.len() - 1,
        forall|i: int| 0 <= i < items.len() ==> #[trigger] interspersed(items, sep)[2 * i] == items[i],
        forall|i: int|
            0 <= i < items.len() - 1 ==> #[trigger] interspersed(items, sep)[2 * i + 1] == sep,
    decreases items.len(),
{
    if items.len() > 1 {
        let p = items.drop_last();
        lemma_interspersed_alternates(p, sep);
        let r = interspersed(items, sep);
        let q = interspersed(p, sep);
        assert(r == q.push(sep).push(items.last()));
        assert forall|i: int| 0 <= i < items.len() implies #[trigger] r[2 * i] == items[i] by {
            if i < items.len() - 1 {
                assert(q[2 * i] == p[i]);
            }
        }
        assert forall|i: int| 0 <= i < items.len() - 1 implies #[trigger] r[2 * i + 1] == sep by {
            if i < items.len() - 2 {
                assert(q[2 * i + 1] == sep);
            }
        }
    }
}

/// The first check that is not `Exists` is at the reported position: every
/// earlier check is `Exists`, and the position is past the end only when
/// all are.
pub proof fn lemma_first_not_present_is_first(checks: Seq<FileCheck>)
    ensures
        0 <= first_not_present(checks) <= checks.len(),
        forall|j: int| 0 <= j < first_not_present(checks) ==> #[trigger] checks[j] == FileCheck::Exists,
        first_not_present(checks) < checks.len() ==> checks[first_not_present(checks)]
            != FileCheck::Exists,
    decreases checks.len(),
{
    if checks.len() > 0 {
        let p = checks.drop_last();
        lemma_first_not_present_is_first(p);
        assert forall|j: int| 0 <= j < first_not_present(checks) implies #[trigger] checks[j]
            == FileCheck::Exists by {
            if j < p.len() {
                assert(checks[j] == p[j]);
            }
        }
        if first_not_present(p) < p.len() {
            assert(checks[first_not_present(p)] == p[first_not_present(p)]);
        }
    }
}

} // verus!
