//! The comparison-basis engine: resolving revisions, choosing the merge
//! inputs of each mode, merging with a "theirs wins" conflict policy, and
//! folding a run of commits into one tree.
use crate::store::{
    commit_id, commit_message, commit_parent_id, commit_tree_id, conflicts, favor_theirs,
    find_commit, find_object, has_conflicts, index_add, index_remove, merge_base, merge_options,
    merge_trees, oid_from_str, path_text, peel_to_commit, peel_to_tree, revparse_single,
    write_tree_to, is_oid_text, Conflict,
};
use crate::trailer::{string_views, upstream_candidates, upstream_candidates_spec};
use git2::{Oid, Repository};
use vstd::prelude::*;

verus! {

/// A resolved commit, as far as the comparison reads it.
#[derive(Clone, Copy)]
pub struct CommitInfo {
    pub id: Oid,
    pub tree: Oid,
    /// The first parent; `None` for a root commit.
    pub parent: Option<Oid>,
}

/// The three inputs of one three-way merge.
#[derive(Clone, Copy)]
pub struct MergeTriple {
    pub base: Oid,
    pub ours: Oid,
    pub theirs: Oid,
}

/// Why a comparison could not be built.
pub enum CmpError {
    /// Some of the requested revisions did not resolve to a commit.
    UnresolvedReference,
    /// Every name resolved, but fewer commits were found than the mode needs:
    /// no "our" commit in commit-range mode, no "other" in branch mode.
    TooFewCommits,
    /// A commit that needs a parent is a root commit.
    MalformedHistory,
    /// The object store reported an error.
    Store(git2::Error),
}

/// What commit-range mode merges and folds.
pub struct CommitPlan {
    /// The "other" commit replayed onto the parent of the first "our" commit.
    pub target: MergeTriple,
    /// The "our" commits, autofetched ones last, to be folded into one tree.
    pub squash: Vec<CommitInfo>,
}

/// One step of settling the conflicts that a merge left.
pub enum IndexOp {
    /// Stage the "their" entry of the conflict at this position as the
    /// resolved (stage 0) entry of its path.
    StageTheirs(usize),
    /// Drop the ancestor, our and their stages at the path of this conflict.
    ClearStages(usize),
}

pub open spec fn head_name() -> Seq<char> {
    seq!['H', 'E', 'A', 'D']
}

pub open spec fn main_name() -> Seq<char> {
    seq!['m', 'a', 'i', 'n']
}

/// The revision names that commit-range mode resolves: `HEAD` is the implicit
/// "our" commit when fewer than two names are given and nothing is autofetched.
pub open spec fn commit_names(ids: Seq<Seq<char>>, autofetch: bool) -> Seq<Seq<char>> {
    if !autofetch && ids.len() < 2 {
        ids.push(head_name())
    } else {
        ids
    }
}

/// The revision names that branch mode resolves: other, upstream (`main` by
/// default), current branch (`HEAD` by default).
pub open spec fn branch_names(ids: Seq<Seq<char>>) -> Seq<Seq<char>> {
    let a = if ids.len() < 2 {
        ids.push(main_name())
    } else {
        ids
    };
    if a.len() < 3 {
        a.push(head_name())
    } else {
        a
    }
}

pub open spec fn all_have_parents(cs: Seq<CommitInfo>) -> bool {
    forall|i: int| 0 <= i < cs.len() ==> (#[trigger] cs[i]).parent is Some
}

pub open spec fn tail_has_parents(cs: Seq<CommitInfo>) -> bool {
    forall|i: int| 1 <= i < cs.len() ==> (#[trigger] cs[i]).parent is Some
}

/// The merge that commit-range mode builds its baseline from: "other" against
/// its own parent, with the parent of "our" as the other side.
pub open spec fn target_triple(other: CommitInfo, our: CommitInfo) -> MergeTriple {
    MergeTriple { base: other.parent.unwrap(), ours: our.parent.unwrap(), theirs: other.id }
}

/// The ops that settle one conflict: stage "theirs" where it exists, then
/// clear the conflict stages.
pub open spec fn ops_for(i: int, c: Option<Conflict>) -> Seq<IndexOp> {
    match c {
        None => seq![],
        Some(c) => if c.their is Some {
            seq![IndexOp::StageTheirs(i as usize), IndexOp::ClearStages(i as usize)]
        } else {
            seq![IndexOp::ClearStages(i as usize)]
        },
    }
}

/// The ops that settle every conflict, in order.
pub open spec fn conflict_ops_spec(cs: Seq<Option<Conflict>>) -> Seq<IndexOp>
    decreases cs.len(),
{
    if cs.len() == 0 {
        seq![]
    } else {
        conflict_ops_spec(cs.drop_last()) + ops_for(cs.len() - 1, cs.last())
    }
}

/// The path that a conflict is recorded under: the ancestor's, else ours, else theirs.
pub open spec fn conflict_path_spec(c: Conflict) -> Option<Seq<u8>> {
    match c.ancestor {
        Some(a) => Some(a.path@),
        None => match c.our {
            Some(o) => Some(o.path@),
            None => match c.their {
                Some(t) => Some(t.path@),
                None => None,
            },
        },
    }
}

pub fn commit_mode_names(ids: &[String], autofetch: bool) -> (r: Vec<String>)
    ensures
        string_views(r@) == commit_names(string_views(ids@), autofetch),
{
    let mut out = copy_names(ids);
    if !autofetch && ids.len() < 2 {
        let ghost before = out@;
        let head = "HEAD".to_owned();
        proof {
            reveal_strlit("HEAD");
        }
        assert(head@ =~= head_name());
        out.push(head);
        assert(string_views(out@) =~= string_views(before).push(head_name()));
    }
    out
}

pub fn branch_mode_names(ids: &[String]) -> (r: Vec<String>)
    ensures
        string_views(r@) == branch_names(string_views(ids@)),
{
    let mut out = copy_names(ids);
    if ids.len() < 2 {
        let ghost before = out@;
        let main = "main".to_owned();
        proof {
            reveal_strlit("main");
        }
        assert(main@ =~= main_name());
        out.push(main);
        assert(string_views(out@) =~= string_views(before).push(main_name()));
    }
    if out.len() < 3 {
        let ghost before = out@;
        let head = "HEAD".to_owned();
        proof {
            reveal_strlit("HEAD");
        }
        assert(head@ =~= head_name());
        out.push(head);
        assert(string_views(out@) =~= string_views(before).push(head_name()));
    }
    out
}

fn copy_names(ids: &[String]) -> (r: Vec<String>)
    ensures
        string_views(r@) == string_views(ids@),
{
    let mut out: Vec<String> = Vec::new();
    let mut i: usize = 0;
    while i < ids.len()
        invariant
            i <= ids@.len(),
            string_views(out@) == string_views(ids@.subrange(0, i as int)),
        decreases ids@.len() - i,
    {
        let ghost before = out@;
        let name = ids[i].clone();
        out.push(name);
        assert(out@ =~= before.push(ids@[i as int]));
        assert(string_views(out@) =~= string_views(before).push(ids@[i as int]@));
        assert(string_views(out@) =~= string_views(ids@.subrange(0, i + 1)));
        i = i + 1;
    }
    assert(ids@.subrange(0, ids@.len() as int) =~= ids@);
    out
}

/// Reads what the comparison needs of a commit: its id, tree and first parent.
pub fn commit_info(c: &git2::Commit) -> (r: CommitInfo) {
    let parent = match commit_parent_id(c, 0) {
        Ok(p) => Some(p),
        Err(_) => None,
    };
    CommitInfo { id: commit_id(c), tree: commit_tree_id(c), parent }
}

/// The commits that a sequence of lookups found, in order, repeats kept.
pub open spec fn somes(o: Seq<Option<CommitInfo>>) -> Seq<CommitInfo>
    decreases o.len(),
{
    if o.len() == 0 {
        seq![]
    } else {
        let rest = somes(o.drop_last());
        match o.last() {
            Some(c) => rest.push(c),
            None => rest,
        }
    }
}

/// Whether every lookup found its commit.
pub open spec fn all_some(o: Seq<Option<CommitInfo>>) -> bool {
    forall|i: int| 0 <= i < o.len() ==> (#[trigger] o[i]) is Some
}

/// The found commits are no more than the lookups; they are as many exactly
/// when every lookup found its commit, and then each keeps its position.
pub proof fn lemma_somes(o: Seq<Option<CommitInfo>>)
    ensures
        somes(o).len() <= o.len(),
        all_some(o) <==> somes(o).len() == o.len(),
        all_some(o) ==> forall|i: int| 0 <= i < o.len() ==> #[trigger] somes(o)[i] == o[i]->Some_0,
    decreases o.len(),
{
    if o.len() > 0 {
        let p = o.drop_last();
        lemma_somes(p);
        if all_some(p) && o.last() is Some {
            assert forall|i: int| 0 <= i < o.len() implies (#[trigger] o[i]) is Some by {
                if i < p.len() {
                    assert(o[i] == p[i]);
                }
            }
        }
        if all_some(o) {
            assert forall|i: int| 0 <= i < p.len() implies (#[trigger] p[i]) is Some by {
                assert(o[i] == p[i]);
            }
            assert forall|i: int| 0 <= i < o.len() implies #[trigger] somes(o)[i] == o[i]->Some_0 by {
                if i < p.len() {
                    assert(o[i] == p[i]);
                }
            }
        }
        if !all_some(o) && all_some(p) {
            assert(o.last() is None) by {
                let i = choose|i: int| 0 <= i < o.len() && !((#[trigger] o[i]) is Some);
                if i < p.len() {
                    assert(o[i] == p[i]);
                }
            }
        }
    }
}

/// Keeps the commits that lookups found, in order, repeats kept.
pub fn keep_found(outcomes: &Vec<Option<CommitInfo>>) -> (r: Vec<CommitInfo>)
    ensures
        r@ == somes(outcomes@),
{
    let mut out: Vec<CommitInfo> = Vec::new();
    let mut i: usize = 0;
    while i < outcomes.len()
        invariant
            i <= outcomes@.len(),
            out@ == somes(outcomes@.subrange(0, i as int)),
        decreases outcomes@.len() - i,
    {
        assert(outcomes@.subrange(0, i + 1).drop_last() =~= outcomes@.subrange(0, i as int));
        if let Some(c) = outcomes[i] {
            out.push(c);
        }
        i = i + 1;
    }
    assert(outcomes@.subrange(0, outcomes@.len() as int) =~= outcomes@);
    out
}

/// Looks each name up: the commit that it resolves to, or `None`.
pub fn resolve_each(repo: &Repository, names: &Vec<String>) -> (r: Vec<Option<CommitInfo>>)
    ensures
        r@.len() == names@.len(),
{
    let mut out: Vec<Option<CommitInfo>> = Vec::new();
    let mut i: usize = 0;
    while i < names.len()
        invariant
            i <= names@.len(),
            out@.len() == i,
        decreases names@.len() - i,
    {
        let mut found: Option<CommitInfo> = None;
        if let Ok(obj) = revparse_single(repo, names[i].as_str()) {
            if let Ok(c) = peel_to_commit(&obj) {
                found = Some(commit_info(&c));
            }
        }
        out.push(found);
        i = i + 1;
    }
    out
}

/// Resolves each name to a commit; names that do not resolve are left out and
/// the others keep their order.
pub fn resolve_all(repo: &Repository, names: &Vec<String>) -> (r: Vec<CommitInfo>)
    ensures
        exists|o: Seq<Option<CommitInfo>>| o.len() == names@.len() && #[trigger] somes(o) == r@,
{
    let outcomes = resolve_each(repo, names);
    keep_found(&outcomes)
}

/// Looks each candidate id up: the commit that it names, or `None` where it
/// does not parse as an id or names no commit.
pub fn lookup_candidates(repo: &Repository, ids: &Vec<String>) -> (r: Vec<Option<CommitInfo>>)
    ensures
        r@.len() == ids@.len(),
        forall|i: int| 0 <= i < ids@.len() && (#[trigger] r@[i]) is Some ==> is_oid_text(ids@[i]@),
{
    let mut out: Vec<Option<CommitInfo>> = Vec::new();
    let mut i: usize = 0;
    while i < ids.len()
        invariant
            i <= ids@.len(),
            out@.len() == i,
            forall|j: int| 0 <= j < i && (#[trigger] out@[j]) is Some ==> is_oid_text(ids@[j]@),
        decreases ids@.len() - i,
    {
        let mut found: Option<CommitInfo> = None;
        if let Ok(oid) = oid_from_str(ids[i].as_str()) {
            if let Ok(c) = find_commit(repo, oid) {
                found = Some(commit_info(&c));
            }
        }
        out.push(found);
        i = i + 1;
    }
    out
}

/// The commits that the lines of `message` name and that the store holds:
/// one lookup per candidate of `upstream_candidates_spec`, the found ones kept
/// in line order, repeats kept.
pub fn upstreams_in_message(repo: &Repository, message: &str) -> (r: Vec<CommitInfo>)
    ensures
        exists|o: Seq<Option<CommitInfo>>|
            o.len() == upstream_candidates_spec(message@).len() && #[trigger] somes(o) == r@
                && forall|i: int|
                0 <= i < o.len() && (#[trigger] o[i]) is Some ==> is_oid_text(
                upstream_candidates_spec(message@)[i],
            ),
{
    let ids = upstream_candidates(message);
    let outcomes = lookup_candidates(repo, &ids);
    let r = keep_found(&outcomes);
    assert forall|i: int| 0 <= i < outcomes@.len() && (#[trigger] outcomes@[i]) is Some implies is_oid_text(
        upstream_candidates_spec(message@)[i],
    ) by {
        assert(string_views(ids@)[i] == ids@[i]@);
    }
    r
}

/// The upstream commits that the message of commit `id` names, as
/// `upstreams_in_message` finds them; none where the commit cannot be read or
/// its message is not UTF-8.
pub fn commit_to_upstreams(repo: &Repository, id: Oid) -> (r: Vec<CommitInfo>)
    ensures
        r@.len() == 0 || exists|m: Seq<char>, o: Seq<Option<CommitInfo>>|
            #![trigger somes(o), upstream_candidates_spec(m)]
            o.len() == upstream_candidates_spec(m).len() && somes(o) == r@,
{
    match find_commit(repo, id) {
        Ok(c) => match commit_message(&c) {
            Ok(m) => upstreams_in_message(repo, m),
            Err(_) => Vec::new(),
        },
        Err(_) => Vec::new(),
    }
}

/// Decides what commit-range mode merges and folds, from the commits that
/// `names_len` names resolved to and the autofetched upstream commits.
pub fn plan_commits(names_len: usize, resolved: Vec<CommitInfo>, upstreams: Vec<CommitInfo>) -> (r:
    Result<CommitPlan, CmpError>)
    ensures
        ({
            let all = resolved@ + upstreams@;
            &&& (r is Err && r->Err_0 is UnresolvedReference) <==> resolved@.len() != names_len
            &&& (r is Err && r->Err_0 is TooFewCommits) <==> (resolved@.len() == names_len
                && all.len() < 2)
            &&& (r is Err && r->Err_0 is MalformedHistory) <==> (resolved@.len() == names_len
                && all.len() >= 2 && !all_have_parents(all))
            &&& (r is Err ==> (r->Err_0 is UnresolvedReference || r->Err_0 is TooFewCommits
                || r->Err_0 is MalformedHistory))
            &&& (resolved@.len() == names_len && all.len() >= 2 && all_have_parents(all)) ==> (r is Ok
                && r->Ok_0.target == target_triple(all[0], all[1]) && r->Ok_0.squash@
                == all.subrange(1, all.len() as int))
        }),
{
    if resolved.len() != names_len {
        return Err(CmpError::UnresolvedReference);
    }
    let ghost all = resolved@ + upstreams@;
    let mut ups = upstreams;
    let mut all_v = resolved;
    all_v.append(&mut ups);
    assert(all_v@ == all);
    if all_v.len() < 2 {
        return Err(CmpError::TooFewCommits);
    }
    let mut i: usize = 0;
    while i < all_v.len()
        invariant
            i <= all_v@.len(),
            all_v@ == all,
            all.len() >= 2,
            resolved@.len() == names_len,
            all == resolved@ + upstreams@,
            forall|j: int| 0 <= j < i ==> (#[trigger] all_v@[j]).parent is Some,
        decreases all_v@.len() - i,
    {
        if all_v[i].parent.is_none() {
            assert(!all_have_parents(all));
            return Err(CmpError::MalformedHistory);
        }
        i = i + 1;
    }
    let other = all_v[0];
    let our = all_v[1];
    let target = MergeTriple {
        base: other.parent.unwrap(),
        ours: our.parent.unwrap(),
        theirs: other.id,
    };
    let squash = all_v.split_off(1);
    assert(squash@ =~= all.subrange(1, all.len() as int));
    Ok(CommitPlan { target, squash })
}

/// The ops that settle the conflicts of a merge: for each readable conflict,
/// stage "theirs" where it exists, then clear its conflict stages.
pub fn conflict_ops(cs: &Vec<Option<Conflict>>) -> (r: Vec<IndexOp>)
    ensures
        r@ == conflict_ops_spec(cs@),
{
    let mut out: Vec<IndexOp> = Vec::new();
    let mut i: usize = 0;
    while i < cs.len()
        invariant
            i <= cs@.len(),
            out@ == conflict_ops_spec(cs@.subrange(0, i as int)),
        decreases cs@.len() - i,
    {
        let ghost pre = cs@.subrange(0, i as int);
        let ghost cur = cs@.subrange(0, i + 1);
        assert(cur.drop_last() =~= pre);
        let ghost before = out@;
        match &cs[i] {
            None => {},
            Some(c) => {
                if c.their.is_some() {
                    out.push(IndexOp::StageTheirs(i));
                }
                out.push(IndexOp::ClearStages(i));
            },
        }
        assert(out@ =~= before + ops_for(i as int, cs@[i as int]));
        i = i + 1;
    }
    assert(cs@.subrange(0, cs@.len() as int) =~= cs@);
    out
}

/// The path that a conflict is recorded under.
pub fn conflict_path(c: &Conflict) -> (r: Option<&Vec<u8>>)
    ensures
        match r {
            Some(p) => conflict_path_spec(*c) == Some(p@),
            None => conflict_path_spec(*c) is None,
        },
{
    match &c.ancestor {
        Some(a) => Some(&a.path),
        None => match &c.our {
            Some(o) => Some(&o.path),
            None => match &c.their {
                Some(t) => Some(&t.path),
                None => None,
            },
        },
    }
}

/// Drops the ancestor, our and their stages at the path of a conflict, and
/// returns that path as text. A path that is not UTF-8 cannot be named to the
/// index, and is left as it is (`None`).
fn clear_conflict(idx: &mut git2::Index, c: &Conflict) -> (r: Option<String>)
    ensures
        r is Some <==> (conflict_path_spec(*c) is Some && vstd::utf8::valid_utf8(
            conflict_path_spec(*c)->Some_0,
        )),
        r is Some ==> r->Some_0@ == vstd::utf8::decode_utf8(conflict_path_spec(*c)->Some_0),
{
    match conflict_path(c) {
        Some(path) => match path_text(path) {
            Some(text) => {
                let mut stage: i32 = 1;
                while stage <= 3
                    invariant
                        1 <= stage <= 4,
                    decreases 4 - stage,
                {
                    let _ = index_remove(idx, text.as_str(), stage);
                    stage = stage + 1;
                }
                Some(text)
            },
            None => None,
        },
        None => None,
    }
}

/// Carries out the ops on the index that the merge produced.
fn apply_ops(idx: &mut git2::Index, cs: &Vec<Option<Conflict>>, ops: &Vec<IndexOp>) -> (r: Result<
    (),
    git2::Error,
>)
    requires
        forall|j: int|
            0 <= j < ops@.len() ==> match #[trigger] ops@[j] {
                IndexOp::StageTheirs(i) => i < cs@.len() && cs@[i as int] is Some
                    && cs@[i as int]->Some_0.their is Some,
                IndexOp::ClearStages(i) => i < cs@.len() && cs@[i as int] is Some,
            },
{
    let mut k: usize = 0;
    while k < ops.len()
        invariant
            k <= ops@.len(),
            forall|j: int|
                0 <= j < ops@.len() ==> match #[trigger] ops@[j] {
                    IndexOp::StageTheirs(i) => i < cs@.len() && cs@[i as int] is Some
                        && cs@[i as int]->Some_0.their is Some,
                    IndexOp::ClearStages(i) => i < cs@.len() && cs@[i as int] is Some,
                },
        decreases ops@.len() - k,
    {
        let op = &ops[k];
        assert(ops@[k as int] == *op);
        match op {
            IndexOp::StageTheirs(i) => {
                if let Some(c) = &cs[*i] {
                    if let Some(t) = &c.their {
                        index_add(idx, &t.entry, resolved_flags(t.flags))?;
                    }
                }
            },
            IndexOp::ClearStages(i) => {
                if let Some(c) = &cs[*i] {
                    let _ = clear_conflict(idx, c);
                }
            },
        }
        k = k + 1;
    }
    Ok(())
}

/// Every op refers to a readable conflict, and "theirs" is staged only for a
/// conflict where "theirs" exists: a path that "theirs" deleted is never staged.
pub proof fn lemma_ops_in_range(cs: Seq<Option<Conflict>>)
    requires
        cs.len() <= usize::MAX,
    ensures
        forall|j: int|
            0 <= j < conflict_ops_spec(cs).len() ==> match #[trigger] conflict_ops_spec(cs)[j] {
                IndexOp::StageTheirs(i) => i < cs.len() && cs[i as int] is Some
                    && cs[i as int]->Some_0.their is Some,
                IndexOp::ClearStages(i) => i < cs.len() && cs[i as int] is Some,
            },
    decreases cs.len(),
{
    if cs.len() > 0 {
        let pre = cs.drop_last();
        lemma_ops_in_range(pre);
        assert forall|j: int| 0 <= j < conflict_ops_spec(cs).len() implies match #[trigger] conflict_ops_spec(cs)[j] {
            IndexOp::StageTheirs(i) => i < cs.len() && cs[i as int] is Some
                && cs[i as int]->Some_0.their is Some,
            IndexOp::ClearStages(i) => i < cs.len() && cs[i as int] is Some,
        } by {
            let a = conflict_ops_spec(pre);
            let b = ops_for(cs.len() - 1, cs.last());
            assert(conflict_ops_spec(cs) == a + b);
            if j < a.len() {
                assert(conflict_ops_spec(cs)[j] == a[j]);
                match a[j] {
                    IndexOp::StageTheirs(i) => assert(pre[i as int] == cs[i as int]),
                    IndexOp::ClearStages(i) => assert(pre[i as int] == cs[i as int]),
                }
            } else {
                assert(conflict_ops_spec(cs)[j] == b[j - a.len()]);
            }
        }
    }
}

/// For every readable conflict where "theirs" exists, the ops stage "theirs"
/// and then, at once, clear that path's conflict stages.
pub proof fn lemma_theirs_staged(cs: Seq<Option<Conflict>>, i: int)
    requires
        cs.len() <= usize::MAX,
        0 <= i < cs.len(),
        cs[i] is Some,
        cs[i]->Some_0.their is Some,
    ensures
        exists|j: int|
            0 <= j && j + 1 < conflict_ops_spec(cs).len() && #[trigger] conflict_ops_spec(cs)[j]
                == IndexOp::StageTheirs(i as usize) && conflict_ops_spec(cs)[j + 1]
                == IndexOp::ClearStages(i as usize),
    decreases cs.len(),
{
    let pre = cs.drop_last();
    let a = conflict_ops_spec(pre);
    let b = ops_for(cs.len() - 1, cs.last());
    assert(conflict_ops_spec(cs) == a + b);
    if i < cs.len() - 1 {
        assert(pre[i] == cs[i]);
        lemma_theirs_staged(pre, i);
        let j = choose|j: int|
            0 <= j && j + 1 < a.len() && #[trigger] a[j] == IndexOp::StageTheirs(i as usize)
                && a[j + 1] == IndexOp::ClearStages(i as usize);
        assert(conflict_ops_spec(cs)[j] == a[j]);
        assert(conflict_ops_spec(cs)[j + 1] == a[j + 1]);
    } else {
        let j = a.len() as int;
        assert(conflict_ops_spec(cs)[j] == b[0]);
        assert(conflict_ops_spec(cs)[j + 1] == b[1]);
    }
}

/// Autofetching appends the found upstream commits to the commits that are
/// folded: exactly as many as were found, in the order found, repeats kept.
pub proof fn lemma_autofetch_appends(resolved: Seq<CommitInfo>, upstreams: Seq<CommitInfo>)
    requires
        resolved.len() >= 1,
    ensures
        (resolved + upstreams).subrange(1, (resolved + upstreams).len() as int) == resolved.subrange(
            1,
            resolved.len() as int,
        ) + upstreams,
        (resolved + upstreams).subrange(1, (resolved + upstreams).len() as int).len() == (
        resolved.len() - 1) + upstreams.len(),
{
    assert((resolved + upstreams).subrange(1, (resolved + upstreams).len() as int) =~= resolved.subrange(
        1,
        resolved.len() as int,
    ) + upstreams);
}

/// The stage that index entry flags hold.
pub open spec fn stage_of(flags: u16) -> u16 {
    (flags >> 12u16) & 3u16
}

/// The same flags at stage 0, the stage of a path without conflict.
pub fn resolved_flags(flags: u16) -> (r: u16)
    ensures
        stage_of(r) == 0,
        r & 0xcfffu16 == flags & 0xcfffu16,
{
    let r = flags & 0xcfffu16;
    assert(((r >> 12u16) & 3u16) == 0 && r & 0xcfffu16 == flags & 0xcfffu16) by (bit_vector)
        requires
            r == flags & 0xcfffu16,
    ;
    r
}

fn store_err<T>(r: Result<T, git2::Error>) -> (o: Result<T, CmpError>)
    ensures
        r is Ok ==> o is Ok && o->Ok_0 == r->Ok_0,
        r is Err ==> o is Err && o->Err_0 is Store,
{
    match r {
        Ok(v) => Ok(v),
        Err(e) => Err(CmpError::Store(e)),
    }
}

/// Merges `theirs` into `ours` over `base` and writes the result as a tree.
/// Conflicts are settled for "their" side: where "theirs" has the path its
/// entry is staged, where it deleted the path the deletion stands.
pub fn merge_to_tree(repo: &Repository, t: &MergeTriple) -> (r: Result<Oid, CmpError>)
    ensures
        r is Err ==> r->Err_0 is Store,
{
    let base_obj = store_err(find_object(repo, t.base))?;
    let our_obj = store_err(find_object(repo, t.ours))?;
    let their_obj = store_err(find_object(repo, t.theirs))?;
    let base_tree = store_err(peel_to_tree(&base_obj))?;
    let our_tree = store_err(peel_to_tree(&our_obj))?;
    let their_tree = store_err(peel_to_tree(&their_obj))?;
    let mut opts = merge_options();
    favor_theirs(&mut opts);
    let mut index = store_err(merge_trees(repo, &base_tree, &our_tree, &their_tree, &opts))?;
    if has_conflicts(&index) {
        let cs = store_err(conflicts(&index))?;
        let ops = conflict_ops(&cs);
        proof {
            lemma_ops_in_range(cs@);
        }
        store_err(apply_ops(&mut index, &cs, &ops))?;
    }
    store_err(write_tree_to(&mut index, repo))
}

/// The merge that folds commit `c` onto the tree folded so far: its own
/// change (its parent as base, itself as theirs) over `acc` as ours.
pub fn fold_step(c: CommitInfo, acc: Oid) -> (r: MergeTriple)
    requires
        c.parent is Some,
    ensures
        r == (MergeTriple { base: c.parent.unwrap(), ours: acc, theirs: c.id }),
{
    MergeTriple { base: c.parent.unwrap(), ours: acc, theirs: c.id }
}

/// The merge that branch mode makes: "other" as theirs over the merge base of
/// "other" and our base, with our base as ours.
pub fn branch_triple(other: CommitInfo, our_base: Oid, their_base: Oid) -> (r: MergeTriple)
    ensures
        r == (MergeTriple { base: their_base, ours: our_base, theirs: other.id }),
{
    MergeTriple { base: their_base, ours: our_base, theirs: other.id }
}

/// Folds a run of commits into one tree: the first commit's tree, then, for
/// each later commit in order, the merge `fold_step(commit, tree so far)`.
pub fn squash_commits(repo: &Repository, commits: &Vec<CommitInfo>) -> (r: Result<Oid, CmpError>)
    requires
        commits@.len() >= 1,
    ensures
        commits@.len() == 1 ==> r is Ok && r->Ok_0 == commits@[0].tree,
        !tail_has_parents(commits@) <==> (r is Err && r->Err_0 is MalformedHistory),
        r is Err ==> (r->Err_0 is MalformedHistory || r->Err_0 is Store),
{
    let mut i: usize = 1;
    while i < commits.len()
        invariant
            1 <= i <= commits@.len(),
            forall|j: int| 1 <= j < i ==> (#[trigger] commits@[j]).parent is Some,
        decreases commits@.len() - i,
    {
        if commits[i].parent.is_none() {
            return Err(CmpError::MalformedHistory);
        }
        i = i + 1;
    }
    let mut acc = commits[0].tree;
    let mut k: usize = 1;
    while k < commits.len()
        invariant
            1 <= k <= commits@.len(),
            tail_has_parents(commits@),
            k == 1 ==> acc == commits@[0].tree,
        decreases commits@.len() - k,
    {
        let step = fold_step(commits[k], acc);
        acc = merge_to_tree(repo, &step)?;
        k = k + 1;
    }
    Ok(acc)
}

/// Commit-range mode on the lookups of its names, "other" first, and the
/// autofetched commits. Fails before any store call when a name did not
/// resolve, when there is no "our" commit, or when one of the commits is a
/// root commit. The "our" commits, autofetched ones last, are what is folded.
pub fn compare_outcomes(
    repo: &Repository,
    outcomes: Vec<Option<CommitInfo>>,
    upstreams: Vec<CommitInfo>,
) -> (r: Result<(Oid, Oid), CmpError>)
    ensures
        ({
            let all = somes(outcomes@) + upstreams@;
            &&& (r is Err && r->Err_0 is UnresolvedReference) <==> !all_some(outcomes@)
            &&& (r is Err && r->Err_0 is TooFewCommits) <==> (all_some(outcomes@) && all.len() < 2)
            &&& (r is Err && r->Err_0 is MalformedHistory) <==> (all_some(outcomes@) && all.len()
                >= 2 && !all_have_parents(all))
            &&& (r is Ok && all.len() == 2) ==> r->Ok_0.1 == all[1].tree
        }),
{
    proof {
        lemma_somes(outcomes@);
    }
    let resolved = keep_found(&outcomes);
    let ghost all = resolved@ + upstreams@;
    let plan = plan_commits(outcomes.len(), resolved, upstreams)?;
    assert forall|j: int| 1 <= j < plan.squash@.len() implies (#[trigger] plan.squash@[j]).parent is Some by {
        assert(plan.squash@[j] == all[j + 1]);
    }
    assert(tail_has_parents(plan.squash@));
    let target = merge_to_tree(repo, &plan.target)?;
    let folded = squash_commits(repo, &plan.squash)?;
    assert(plan.squash@.len() == 1 ==> plan.squash@[0] == all[1]);
    Ok((target, folded))
}

/// Commit-range mode. `commit_ids` names "other" first, then the "our"
/// commits. Returns the tree of "other" replayed onto the parent of the first
/// "our" commit, and the tree that the "our" commits fold into. With
/// `autofetch`, the upstream commits that the message of "other" names are
/// folded after the named "our" commits.
pub fn cmp_commits(repo: &Repository, commit_ids: &[String], autofetch: bool) -> (r: Result<
    (Oid, Oid),
    CmpError,
>)
    ensures
        exists|o: Seq<Option<CommitInfo>>|
            o.len() == commit_names(string_views(commit_ids@), autofetch).len() && ((r is Err
                && r->Err_0 is UnresolvedReference) <==> !#[trigger] all_some(o)),
        commit_ids@.len() == 0 ==> r is Err && (r->Err_0 is UnresolvedReference || r->Err_0 is TooFewCommits),
{
    let names = commit_mode_names(commit_ids, autofetch);
    assert(string_views(names@).len() == names@.len());
    let outcomes = resolve_each(repo, &names);
    let mut upstreams: Vec<CommitInfo> = Vec::new();
    if autofetch && outcomes.len() >= 1 {
        if let Some(other) = outcomes[0] {
            upstreams = commit_to_upstreams(repo, other.id);
        }
    }
    assert(commit_ids@.len() == 0 ==> outcomes@.len() + upstreams@.len() < 2);
    proof {
        lemma_somes(outcomes@);
    }
    let r = compare_outcomes(repo, outcomes, upstreams);
    r
}

/// Branch mode on the lookups of its names: other, upstream, current branch.
/// Returns the tree of `branch_triple(other, our base, their base)` merged,
/// where our base is the merge base of the current branch and upstream and
/// their base that of "other" and our base, and the id of the current branch.
pub fn compare_branch_outcomes(repo: &Repository, outcomes: Vec<Option<CommitInfo>>) -> (r: Result<
    (Oid, Oid),
    CmpError,
>)
    ensures
        (r is Err && r->Err_0 is UnresolvedReference) <==> !all_some(outcomes@),
        (r is Err && r->Err_0 is TooFewCommits) <==> (all_some(outcomes@) && outcomes@.len() < 3),
        r is Err ==> !(r->Err_0 is MalformedHistory),
        r is Ok ==> r->Ok_0.1 == outcomes@[2]->Some_0.id,
{
    proof {
        lemma_somes(outcomes@);
    }
    let resolved = keep_found(&outcomes);
    if resolved.len() != outcomes.len() {
        return Err(CmpError::UnresolvedReference);
    }
    if resolved.len() < 3 {
        return Err(CmpError::TooFewCommits);
    }
    let other = resolved[0];
    let upstream = resolved[1];
    let current = resolved[2];
    let our_base = store_err(merge_base(repo, current.id, upstream.id))?;
    let their_base = store_err(merge_base(repo, other.id, our_base))?;
    let merged = merge_to_tree(repo, &branch_triple(other, our_base, their_base))?;
    Ok((merged, current.id))
}

/// Branch mode. `commit_ids` names "other", then the common upstream (`main`
/// by default), then the current branch (`HEAD` by default). Returns the tree
/// of "other" merged onto the base of the current branch, and the current
/// branch's commit id. Without any name there is no "other" to compare.
pub fn cmp_branches(repo: &Repository, commit_ids: &[String]) -> (r: Result<(Oid, Oid), CmpError>)
    ensures
        exists|o: Seq<Option<CommitInfo>>|
            o.len() == branch_names(string_views(commit_ids@)).len() && ((r is Err
                && r->Err_0 is UnresolvedReference) <==> !#[trigger] all_some(o)),
        r is Err ==> !(r->Err_0 is MalformedHistory),
        commit_ids@.len() == 0 ==> r is Err && (r->Err_0 is UnresolvedReference || r->Err_0 is TooFewCommits),
{
    let names = branch_mode_names(commit_ids);
    assert(string_views(names@).len() == names@.len());
    let outcomes = resolve_each(repo, &names);
    compare_branch_outcomes(repo, outcomes)
}

} // verus!
