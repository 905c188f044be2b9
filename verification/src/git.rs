//! Repository inventories and the reconciler: the three-way diff between the
//! remote team's repository set and the local working copies, driven
//! everywhere by the same prefix-stripped name comparison.

use vstd::prelude::*;
use vstd::seq_lib::*;
use crate::text::{str_eq, str_has_prefix, strip_prefix, strip_prefix_spec};

verus! {

/// A git working copy found directly under the inventory root.
pub struct LocalRepo {
    pub name: String,
    pub path: String,
}

/// A repository as the remote team endpoint reports it.
pub struct RemoteRepo {
    pub name: String,
    pub archived: bool,
    pub ssh_url: String,
}

impl Clone for LocalRepo {
    fn clone(&self) -> (r: Self)
        ensures
            r == *self,
    {
        LocalRepo { name: self.name.clone(), path: self.path.clone() }
    }
}

impl Clone for RemoteRepo {
    fn clone(&self) -> (r: Self)
        ensures
            r == *self,
    {
        RemoteRepo {
            name: self.name.clone(),
            archived: self.archived,
            ssh_url: self.ssh_url.clone(),
        }
    }
}

/// The identity under which a remote repository is compared with local ones:
/// its name with the team prefix stripped.
pub open spec fn local_name_spec(remote_name: Seq<char>, prefix: Seq<char>) -> Seq<char> {
    strip_prefix_spec(remote_name, prefix)
}

/// A remote repository is known locally when some local repository's name
/// equals the remote name with the prefix stripped.
pub open spec fn known_locally(
    remote: RemoteRepo,
    locals: Seq<LocalRepo>,
    prefix: Seq<char>,
) -> bool {
    exists|i: int|
        0 <= i < locals.len() && locals[i].name@ == local_name_spec(remote.name@, prefix)
}

/// The remote repositories that no local working copy answers to.
pub open spec fn new_repos_spec(
    remote: Seq<RemoteRepo>,
    locals: Seq<LocalRepo>,
    prefix: Seq<char>,
) -> Seq<RemoteRepo> {
    remote.filter(|rr: RemoteRepo| !known_locally(rr, locals, prefix))
}

/// The remote repositories (archived ones, at the call sites) that still have
/// a local working copy.
pub open spec fn known_repos_spec(
    remote: Seq<RemoteRepo>,
    locals: Seq<LocalRepo>,
    prefix: Seq<char>,
) -> Seq<RemoteRepo> {
    remote.filter(|rr: RemoteRepo| known_locally(rr, locals, prefix))
}

/// The directory name a clone of `remote_repo` is placed under: the remote
/// name with the team prefix stripped.
pub fn clone_dir_name(remote_repo: &RemoteRepo, github_team_prefix: &String) -> (r: String)
    ensures
        r@ == local_name_spec(remote_repo.name@, github_team_prefix@),
{
    strip_prefix(remote_repo.name.as_str(), github_team_prefix.as_str())
}

/// Whether some local repository's name equals the remote name with the
/// prefix stripped.
pub fn is_known_repo(
    remote_repo: &RemoteRepo,
    local_repos: &Vec<LocalRepo>,
    github_team_prefix: &String,
) -> (r: bool)
    ensures
        r == known_locally(*remote_repo, local_repos@, github_team_prefix@),
{
    let stripped = strip_prefix(remote_repo.name.as_str(), github_team_prefix.as_str());
    let mut i: usize = 0;
    while i < local_repos.len()
        invariant
            i <= local_repos@.len(),
            stripped@ == local_name_spec(remote_repo.name@, github_team_prefix@),
            forall|j: int|
                0 <= j < i ==> local_repos@[j].name@ != local_name_spec(
                    remote_repo.name@,
                    github_team_prefix@,
                ),
        decreases local_repos@.len() - i,
    {
        if str_eq(local_repos[i].name.as_str(), stripped.as_str()) {
            return true;
        }
        i = i + 1;
    }
    false
}

/// The remote repositories to clone: those not yet known locally, in the
/// order the remote listing gave them.
pub fn find_new_repos(
    remote_repos: &Vec<RemoteRepo>,
    local_repos: &Vec<LocalRepo>,
    github_team_prefix: &String,
) -> (r: Vec<RemoteRepo>)
    ensures
        r@ == new_repos_spec(remote_repos@, local_repos@, github_team_prefix@),
{
    let ghost pred = |rr: RemoteRepo| !known_locally(rr, local_repos@, github_team_prefix@);
    let mut out: Vec<RemoteRepo> = Vec::new();
    let mut i: usize = 0;
    while i < remote_repos.len()
        invariant
            i <= remote_repos@.len(),
            pred == (|rr: RemoteRepo| !known_locally(rr, local_repos@, github_team_prefix@)),
            out@ == remote_repos@.take(i as int).filter(pred),
        decreases remote_repos@.len() - i,
    {
        let known = is_known_repo(&remote_repos[i], local_repos, github_team_prefix);
        proof {
            assert(remote_repos@.take(i + 1) =~= remote_repos@.take(i as int) + seq![
                remote_repos@[i as int],
            ]);
            Seq::filter_distributes_over_add(
                remote_repos@.take(i as int),
                seq![remote_repos@[i as int]],
                pred,
            );
            reveal_with_fuel(Seq::filter, 2);
            assert(seq![remote_repos@[i as int]].drop_last() =~= Seq::<RemoteRepo>::empty());
        }
        if !known {
            out.push(remote_repos[i].clone());
        }
        i = i + 1;
    }
    proof {
        assert(remote_repos@.take(i as int) =~= remote_repos@);
    }
    out
}

/// The archived remote repositories that still have a local working copy, in
/// the order the remote listing gave them.
pub fn find_archived_local_repos(
    remote_archived_repos: &Vec<RemoteRepo>,
    local_repos: &Vec<LocalRepo>,
    github_team_prefix: &String,
) -> (r: Vec<RemoteRepo>)
    ensures
        r@ == known_repos_spec(remote_archived_repos@, local_repos@, github_team_prefix@),
{
    let ghost pred = |rr: RemoteRepo| known_locally(rr, local_repos@, github_team_prefix@);
    let mut out: Vec<RemoteRepo> = Vec::new();
    let mut i: usize = 0;
    while i < remote_archived_repos.len()
        invariant
            i <= remote_archived_repos@.len(),
            pred == (|rr: RemoteRepo| known_locally(rr, local_repos@, github_team_prefix@)),
            out@ == remote_archived_repos@.take(i as int).filter(pred),
        decreases remote_archived_repos@.len() - i,
    {
        let known = is_known_repo(&remote_archived_repos[i], local_repos, github_team_prefix);
        proof {
            assert(remote_archived_repos@.take(i + 1) =~= remote_archived_repos@.take(i as int)
                + seq![remote_archived_repos@[i as int]]);
            Seq::filter_distributes_over_add(
                remote_archived_repos@.take(i as int),
                seq![remote_archived_repos@[i as int]],
                pred,
            );
            reveal_with_fuel(Seq::filter, 2);
            assert(seq![remote_archived_repos@[i as int]].drop_last() =~= Seq::<
                RemoteRepo,
            >::empty());
        }
        if known {
            out.push(remote_archived_repos[i].clone());
        }
        i = i + 1;
    }
    proof {
        assert(remote_archived_repos@.take(i as int) =~= remote_archived_repos@);
    }
    out
}

/// The repositories of `git_repos` that are not archived.
pub fn list_active_github_team_repos(git_repos: Vec<RemoteRepo>) -> (r: Vec<RemoteRepo>)
    ensures
        r@ == git_repos@.filter(|rr: RemoteRepo| !rr.archived),
{
    let ghost pred = |rr: RemoteRepo| !rr.archived;
    let mut out: Vec<RemoteRepo> = Vec::new();
    let mut i: usize = 0;
    while i < git_repos.len()
        invariant
            i <= git_repos@.len(),
            pred == (|rr: RemoteRepo| !rr.archived),
            out@ == git_repos@.take(i as int).filter(pred),
        decreases git_repos@.len() - i,
    {
        proof {
            assert(git_repos@.take(i + 1) =~= git_repos@.take(i as int) + seq![
                git_repos@[i as int],
            ]);
            Seq::filter_distributes_over_add(
                git_repos@.take(i as int),
                seq![git_repos@[i as int]],
                pred,
            );
            reveal_with_fuel(Seq::filter, 2);
            assert(seq![git_repos@[i as int]].drop_last() =~= Seq::<RemoteRepo>::empty());
        }
        if !git_repos[i].archived {
            out.push(git_repos[i].clone());
        }
        i = i + 1;
    }
    proof {
        assert(git_repos@.take(i as int) =~= git_repos@);
    }
    out
}

/// The repositories of `git_repos` that are archived.
pub fn list_archived_github_team_repos(git_repos: Vec<RemoteRepo>) -> (r: Vec<RemoteRepo>)
    ensures
        r@ == git_repos@.filter(|rr: RemoteRepo| rr.archived),
{
    let ghost pred = |rr: RemoteRepo| rr.archived;
    let mut out: Vec<RemoteRepo> = Vec::new();
    let mut i: usize = 0;
    while i < git_repos.len()
        invariant
            i <= git_repos@.len(),
            pred == (|rr: RemoteRepo| rr.archived),
            out@ == git_repos@.take(i as int).filter(pred),
        decreases git_repos@.len() - i,
    {
        proof {
            assert(git_repos@.take(i + 1) =~= git_repos@.take(i as int) + seq![
                git_repos@[i as int],
            ]);
            Seq::filter_distributes_over_add(
                git_repos@.take(i as int),
                seq![git_repos@[i as int]],
                pred,
            );
            reveal_with_fuel(Seq::filter, 2);
            assert(seq![git_repos@[i as int]].drop_last() =~= Seq::<RemoteRepo>::empty());
        }
        if git_repos[i].archived {
            out.push(git_repos[i].clone());
        }
        i = i + 1;
    }
    proof {
        assert(git_repos@.take(i as int) =~= git_repos@);
    }
    out
}

/// A filter and the filter by its negation split a sequence without loss:
/// together they hold every element exactly as often as the sequence does.
proof fn lemma_filter_complement_multiset<A>(s: Seq<A>, pred: spec_fn(A) -> bool)
    ensures
        s.filter(pred).to_multiset().add(
            s.filter(|x: A| !pred(x)).to_multiset(),
        ) =~= s.to_multiset(),
    decreases s.len(),
{
    broadcast use vstd::seq_lib::group_to_multiset_ensures;
    broadcast use vstd::multiset::group_multiset_axioms;

    reveal(Seq::filter);
    let npred = |x: A| !pred(x);
    if s.len() == 0 {
        assert(s.to_multiset().len() == 0);
    } else {
        let t = s.drop_last();
        let l = s.last();
        lemma_filter_complement_multiset(t, pred);
        assert(s =~= t.push(l));
        assert(t.push(l).to_multiset() =~= t.to_multiset().insert(l));
        if pred(l) {
            assert(s.filter(pred) == t.filter(pred).push(l));
            assert(t.filter(pred).push(l).to_multiset() =~= t.filter(pred).to_multiset().insert(
                l,
            ));
            assert(s.filter(npred) == t.filter(npred));
        } else {
            assert(s.filter(npred) == t.filter(npred).push(l));
            assert(t.filter(npred).push(l).to_multiset() =~= t.filter(npred).to_multiset().insert(
                l,
            ));
            assert(s.filter(pred) == t.filter(pred));
        }
        assert forall|v: A|
            s.filter(pred).to_multiset().add(s.filter(npred).to_multiset()).count(v)
                == s.to_multiset().count(v) by {
            assert(t.filter(pred).to_multiset().add(t.filter(npred).to_multiset()).count(v)
                == t.to_multiset().count(v));
        }
    }
}

/// The reconciler's diff partitions the active remote listing: no repository
/// chosen for cloning is known locally, every repository kept back is, and
/// between the two sets every remote repository is counted exactly as often
/// as the listing holds it — nothing dropped, nothing doubled.
pub proof fn lemma_new_repos_partition(
    remote: Seq<RemoteRepo>,
    locals: Seq<LocalRepo>,
    prefix: Seq<char>,
)
    ensures
        forall|i: int|
            0 <= i < new_repos_spec(remote, locals, prefix).len() ==> !known_locally(
                #[trigger] new_repos_spec(remote, locals, prefix)[i],
                locals,
                prefix,
            ),
        forall|i: int|
            0 <= i < known_repos_spec(remote, locals, prefix).len() ==> known_locally(
                #[trigger] known_repos_spec(remote, locals, prefix)[i],
                locals,
                prefix,
            ),
        forall|x: RemoteRepo|
            new_repos_spec(remote, locals, prefix).to_multiset().count(x) + known_repos_spec(
                remote,
                locals,
                prefix,
            ).to_multiset().count(x) == #[trigger] remote.to_multiset().count(x),
{
    broadcast use vstd::multiset::group_multiset_axioms;
    broadcast use vstd::seq_lib::group_filter_ensures;

    let known_pred = |rr: RemoteRepo| known_locally(rr, locals, prefix);
    let new_pred = |rr: RemoteRepo| !known_locally(rr, locals, prefix);
    lemma_filter_complement_multiset(remote, known_pred);
    assert(new_pred =~= (|x: RemoteRepo| !known_pred(x)));
}

/// Prefix stripping is applied identically in every comparison: membership
/// in the new set and in the archived-but-local set are both decided by the
/// same stripped-name identity against the local names.
pub proof fn lemma_prefix_identity_uniform(
    remote: Seq<RemoteRepo>,
    locals: Seq<LocalRepo>,
    prefix: Seq<char>,
    i: int,
)
    requires
        0 <= i < remote.len(),
    ensures
        new_repos_spec(remote, locals, prefix).contains(remote[i]) <==> !(exists|j: int|
            0 <= j < locals.len() && locals[j].name@ == strip_prefix_spec(
                remote[i].name@,
                prefix,
            )),
        known_repos_spec(remote, locals, prefix).contains(remote[i]) <==> (exists|j: int|
            0 <= j < locals.len() && locals[j].name@ == strip_prefix_spec(
                remote[i].name@,
                prefix,
            )),
{
    broadcast use vstd::seq_lib::group_filter_ensures;

    let known_pred = |rr: RemoteRepo| known_locally(rr, locals, prefix);
    let new_pred = |rr: RemoteRepo| !known_locally(rr, locals, prefix);
    if new_repos_spec(remote, locals, prefix).contains(remote[i]) {
        let k = choose|k: int|
            0 <= k < remote.filter(new_pred).len() && remote.filter(new_pred)[k] == remote[i];
        assert(new_pred(remote.filter(new_pred)[k]));
    }
    if known_repos_spec(remote, locals, prefix).contains(remote[i]) {
        let k = choose|k: int|
            0 <= k < remote.filter(known_pred).len() && remote.filter(known_pred)[k] == remote[i];
        assert(known_pred(remote.filter(known_pred)[k]));
    }
}

/// A working copy created under a remote repository's stripped name makes
/// that repository known locally: what one run clones, the next run pulls.
pub proof fn lemma_clone_makes_known(
    remote: RemoteRepo,
    locals: Seq<LocalRepo>,
    prefix: Seq<char>,
    fresh: LocalRepo,
)
    requires
        fresh.name@ == local_name_spec(remote.name@, prefix),
    ensures
        known_locally(remote, locals.push(fresh), prefix),
{
    assert(locals.push(fresh)[locals.len() as int] == fresh);
}

/// When every active remote repository already answers to a working copy —
/// as after a run that cloned all new repositories — a second reconciliation
/// over the unchanged sets finds nothing to clone.
pub proof fn lemma_reconcile_idempotent(
    remote: Seq<RemoteRepo>,
    locals: Seq<LocalRepo>,
    prefix: Seq<char>,
)
    requires
        forall|i: int| 0 <= i < remote.len() ==> known_locally(#[trigger] remote[i], locals, prefix),
    ensures
        new_repos_spec(remote, locals, prefix) =~= Seq::<RemoteRepo>::empty(),
{
    let new_pred = |rr: RemoteRepo| !known_locally(rr, locals, prefix);
    assert(remote.all(|x: RemoteRepo| !new_pred(x))) by {
        assert forall|i: int| 0 <= i < remote.len() implies !new_pred(remote[i]) by {
            assert(known_locally(remote[i], locals, prefix));
        }
    }
    remote.lemma_all_neg_filter_empty(new_pred);
}

/// The part of one fetched page that belongs to the team: the repositories
/// whose name begins with the team prefix, in page order.
pub open spec fn team_page_spec(page: Seq<RemoteRepo>, prefix: Seq<char>) -> Seq<RemoteRepo> {
    page.filter(|rr: RemoteRepo| prefix.is_prefix_of(rr.name@))
}

/// One step of the paginated remote fetch: appends the prefix-matching part
/// of `page` to the repositories gathered so far, and says whether a further
/// page is to be requested. A page whose matching part is empty is taken as
/// the last one, so pagination stops there even if later pages would still
/// hold matching repositories.
pub fn accumulate_team_page(
    repos: &mut Vec<RemoteRepo>,
    page: Vec<RemoteRepo>,
    github_team_prefix: &String,
) -> (more: bool)
    ensures
        final(repos)@ == old(repos)@ + team_page_spec(page@, github_team_prefix@),
        more == (team_page_spec(page@, github_team_prefix@).len() != 0),
{
    let ghost pred = |rr: RemoteRepo| github_team_prefix@.is_prefix_of(rr.name@);
    let start: usize = repos.len();
    let mut i: usize = 0;
    while i < page.len()
        invariant
            i <= page@.len(),
            pred == (|rr: RemoteRepo| github_team_prefix@.is_prefix_of(rr.name@)),
            repos@ == old(repos)@ + page@.take(i as int).filter(pred),
            start == old(repos)@.len(),
        decreases page@.len() - i,
    {
        let matched = str_has_prefix(page[i].name.as_str(), github_team_prefix.as_str());
        proof {
            assert(page@.take(i + 1) =~= page@.take(i as int) + seq![page@[i as int]]);
            Seq::filter_distributes_over_add(page@.take(i as int), seq![page@[i as int]], pred);
            reveal_with_fuel(Seq::filter, 2);
            assert(seq![page@[i as int]].drop_last() =~= Seq::<RemoteRepo>::empty());
        }
        if matched {
            repos.push(page[i].clone());
        }
        i = i + 1;
    }
    proof {
        assert(page@.take(i as int) =~= page@);
    }
    repos.len() > start
}

/// A directory listing marks a git working copy when it includes a `.git`
/// entry.
pub open spec fn names_include_git(entries: Seq<String>) -> bool {
    exists|i: int| 0 <= i < entries.len() && entries[i]@ == ".git"@
}

/// Whether a directory's immediate entries include one named `.git`.
pub fn has_git_entry(entries: &Vec<String>) -> (r: bool)
    ensures
        r == names_include_git(entries@),
{
    let mut i: usize = 0;
    while i < entries.len()
        invariant
            i <= entries@.len(),
            forall|j: int| 0 <= j < i ==> entries@[j]@ != ".git"@,
        decreases entries@.len() - i,
    {
        if str_eq(entries[i].as_str(), ".git") {
            return true;
        }
        i = i + 1;
    }
    false
}

/// Admits one scanned child of the inventory root as a local repository
/// exactly when its immediate entries include `.git`.
pub fn local_repo_if_git(name: String, path: String, entries: &Vec<String>) -> (r: Option<
    LocalRepo,
>)
    ensures
        r is Some <==> names_include_git(entries@),
        r matches Some(repo) ==> repo.name == name && repo.path == path,
{
    if has_git_entry(entries) {
        Some(LocalRepo { name, path })
    } else {
        None
    }
}

} // verus!
