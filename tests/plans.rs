use git2::{IndexEntry, IndexTime, Oid};
use git_cmp::engine::{
    branch_triple, conflict_ops, conflict_path, fold_step, keep_found, plan_commits,
    resolved_flags, CmpError, CommitInfo, IndexOp,
};
use git_cmp::store::{Conflict, ConflictSide};

fn oid(n: u8) -> Oid {
    Oid::from_bytes(&[n; 20]).unwrap()
}

fn info(id: u8, parent: Option<u8>) -> CommitInfo {
    CommitInfo { id: oid(id), tree: oid(id + 100), parent: parent.map(oid) }
}

fn side(path: &str) -> ConflictSide {
    let entry = IndexEntry {
        ctime: IndexTime::new(0, 0),
        mtime: IndexTime::new(0, 0),
        dev: 0,
        ino: 0,
        mode: 0o100644,
        uid: 0,
        gid: 0,
        file_size: 0,
        id: oid(9),
        flags: 0,
        flags_extended: 0,
        path: path.as_bytes().to_vec(),
    };
    ConflictSide { path: path.as_bytes().to_vec(), flags: 0x3000, entry }
}

#[test]
fn plan_fails_when_a_name_is_unresolved() {
    let r = plan_commits(2, vec![info(1, Some(0))], vec![]);
    assert!(matches!(r, Err(CmpError::UnresolvedReference)));
}

#[test]
fn plan_fails_without_an_our_commit() {
    let r = plan_commits(1, vec![info(1, Some(0))], vec![]);
    assert!(matches!(r, Err(CmpError::TooFewCommits)));
}

#[test]
fn plan_fails_on_a_root_commit() {
    let r = plan_commits(2, vec![info(2, Some(1)), info(3, None)], vec![]);
    assert!(matches!(r, Err(CmpError::MalformedHistory)));
    let r = plan_commits(2, vec![info(2, None), info(3, Some(1))], vec![]);
    assert!(matches!(r, Err(CmpError::MalformedHistory)));
}

#[test]
fn plan_replays_other_onto_our_parent() {
    let plan = match plan_commits(2, vec![info(2, Some(1)), info(3, Some(4))], vec![]) {
        Ok(p) => p,
        Err(_) => panic!("expected a plan"),
    };
    assert_eq!(plan.target.base, oid(1));
    assert_eq!(plan.target.ours, oid(4));
    assert_eq!(plan.target.theirs, oid(2));
    let ids: Vec<Oid> = plan.squash.iter().map(|c| c.id).collect();
    assert_eq!(ids, vec![oid(3)]);
}

#[test]
fn plan_folds_autofetched_commits_last() {
    let ups = vec![info(7, Some(6)), info(7, Some(6))];
    let plan = match plan_commits(2, vec![info(2, Some(1)), info(3, Some(1))], ups) {
        Ok(p) => p,
        Err(_) => panic!("expected a plan"),
    };
    let ids: Vec<Oid> = plan.squash.iter().map(|c| c.id).collect();
    assert_eq!(ids, vec![oid(3), oid(7), oid(7)]);
}

#[test]
fn autofetched_commit_can_be_the_our_commit() {
    let plan = match plan_commits(1, vec![info(2, Some(1))], vec![info(5, Some(4))]) {
        Ok(p) => p,
        Err(_) => panic!("expected a plan"),
    };
    assert_eq!(plan.target.ours, oid(4));
    assert_eq!(plan.squash.len(), 1);
}

#[test]
fn conflicts_are_settled_for_theirs() {
    let with_theirs = Conflict { ancestor: Some(side("a")), our: Some(side("a")), their: Some(side("a")) };
    let deleted = Conflict { ancestor: Some(side("b")), our: Some(side("b")), their: None };
    let cs = vec![Some(with_theirs), None, Some(deleted)];
    let ops = conflict_ops(&cs);
    assert_eq!(ops.len(), 3);
    assert!(matches!(ops[0], IndexOp::StageTheirs(0)));
    assert!(matches!(ops[1], IndexOp::ClearStages(0)));
    assert!(matches!(ops[2], IndexOp::ClearStages(2)));
}

#[test]
fn conflict_path_prefers_ancestor_then_ours() {
    let c = Conflict { ancestor: None, our: Some(side("o")), their: Some(side("t")) };
    assert_eq!(conflict_path(&c), Some(&b"o".to_vec()));
    let c = Conflict { ancestor: None, our: None, their: Some(side("t")) };
    assert_eq!(conflict_path(&c), Some(&b"t".to_vec()));
    let c = Conflict { ancestor: None, our: None, their: None };
    assert_eq!(conflict_path(&c), None);
}

#[test]
fn resolved_flags_clear_the_stage_only() {
    assert_eq!(resolved_flags(0x3000), 0);
    assert_eq!(resolved_flags(0x3005), 0x0005);
    assert_eq!(resolved_flags(0xc123), 0xc123);
    assert_eq!(resolved_flags(0x1fff), 0x0fff);
}

#[test]
fn keep_found_keeps_order_and_repeats() {
    let found = keep_found(&vec![Some(info(3, None)), None, Some(info(1, None)), Some(info(3, None))]);
    let ids: Vec<Oid> = found.iter().map(|c| c.id).collect();
    assert_eq!(ids, vec![oid(3), oid(1), oid(3)]);
    assert!(keep_found(&vec![None, None]).is_empty());
}

#[test]
fn fold_step_layers_the_commit_change() {
    let t = fold_step(info(5, Some(4)), oid(77));
    assert_eq!(t.base, oid(4));
    assert_eq!(t.ours, oid(77));
    assert_eq!(t.theirs, oid(5));
}

#[test]
fn branch_triple_takes_other_as_theirs() {
    let t = branch_triple(info(8, Some(1)), oid(20), oid(30));
    assert_eq!(t.base, oid(30));
    assert_eq!(t.ours, oid(20));
    assert_eq!(t.theirs, oid(8));
}
