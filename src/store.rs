//! The object store: git2's types as Verus sees them, and the calls into git2
//! and into std that the comparison logic makes.
//!
//! Every function here is trusted: its contract states only what git2's or
//! std's documentation promises, which is often nothing beyond the types.
use vstd::prelude::*;

verus! {

#[verifier::external_type_specification]
#[verifier::external_body]
pub struct ExRepository(git2::Repository);

#[verifier::external_type_specification]
#[verifier::external_body]
pub struct ExOid(git2::Oid);

#[verifier::external_type_specification]
#[verifier::external_body]
pub struct ExError(git2::Error);

#[verifier::external_type_specification]
#[verifier::external_body]
pub struct ExIndex(git2::Index);

#[verifier::external_type_specification]
#[verifier::external_body]
pub struct ExIndexEntry(git2::IndexEntry);

#[verifier::external_type_specification]
#[verifier::external_body]
pub struct ExMergeOptions(git2::MergeOptions);

#[verifier::external_type_specification]
#[verifier::external_body]
pub struct ExObject<'repo>(git2::Object<'repo>);

#[verifier::external_type_specification]
#[verifier::external_body]
pub struct ExCommit<'repo>(git2::Commit<'repo>);

#[verifier::external_type_specification]
#[verifier::external_body]
pub struct ExTree<'repo>(git2::Tree<'repo>);

/// One side of a conflicting index path: the entry, its path bytes and its
/// flags (bits 12 and 13 hold the stage).
pub struct ConflictSide {
    pub path: Vec<u8>,
    pub flags: u16,
    pub entry: git2::IndexEntry,
}

/// The stages that a three-way merge left for one conflicting path.
pub struct Conflict {
    pub ancestor: Option<ConflictSide>,
    pub our: Option<ConflictSide>,
    pub their: Option<ConflictSide>,
}

/// Relies on std's `str::chars`: it yields the characters of the string in order.
#[verifier::external_body]
pub(crate) fn chars_of(s: &str) -> (r: Vec<char>)
    ensures
        r@ == s@,
{
    s.chars().collect()
}

/// Relies on std's `FromIterator<char>` for `String`: the string holds the
/// characters in order.
#[verifier::external_body]
pub(crate) fn string_of(v: &Vec<char>) -> (r: String)
    ensures
        r@ == v@,
{
    v.iter().collect()
}

/// Relies on std's `String::from_utf8`, to name an index path as text: it
/// succeeds exactly on valid UTF-8, and the string decodes those bytes.
#[verifier::external_body]
pub(crate) fn path_text(bytes: &Vec<u8>) -> (r: Option<String>)
    ensures
        r is Some <==> vstd::utf8::valid_utf8(bytes@),
        r is Some ==> r->Some_0@ == vstd::utf8::decode_utf8(bytes@),
{
    String::from_utf8(bytes.clone()).ok()
}

/// Relies on git2's `Repository::revparse_single`: finds the object that a
/// revision string names.
#[verifier::external_body]
pub(crate) fn revparse_single<'a>(repo: &'a git2::Repository, spec: &str) -> (r: Result<
    git2::Object<'a>,
    git2::Error,
>) {
    repo.revparse_single(spec)
}

/// Relies on git2's `Object::peel_to_commit`: follows tags to a commit.
#[verifier::external_body]
pub(crate) fn peel_to_commit<'a>(o: &git2::Object<'a>) -> (r: Result<git2::Commit<'a>, git2::Error>) {
    o.peel_to_commit()
}

/// Relies on git2's `Object::peel_to_tree`: the tree of a commit, or a tree itself.
#[verifier::external_body]
pub(crate) fn peel_to_tree<'a>(o: &git2::Object<'a>) -> (r: Result<git2::Tree<'a>, git2::Error>) {
    o.peel_to_tree()
}

/// Relies on git2's `Commit::id`.
#[verifier::external_body]
pub(crate) fn commit_id(c: &git2::Commit) -> (r: git2::Oid) {
    c.id()
}

/// Relies on git2's `Commit::tree_id`.
#[verifier::external_body]
pub(crate) fn commit_tree_id(c: &git2::Commit) -> (r: git2::Oid) {
    c.tree_id()
}

/// Relies on git2's `Commit::parent_id`: the id of the parent at position `i`,
/// or an error when the commit has fewer parents.
#[verifier::external_body]
pub(crate) fn commit_parent_id(c: &git2::Commit, i: usize) -> (r: Result<git2::Oid, git2::Error>) {
    c.parent_id(i)
}

/// Relies on git2's `Commit::message`: the message, or an error when it is not UTF-8.
#[verifier::external_body]
pub(crate) fn commit_message<'c>(c: &'c git2::Commit) -> (r: Result<&'c str, git2::Error>) {
    c.message()
}

/// A hexadecimal digit, in either case.
pub open spec fn is_hex_digit(c: char) -> bool {
    ('0' <= c && c <= '9') || ('a' <= c && c <= 'f') || ('A' <= c && c <= 'F')
}

/// Text that reads as a full or abbreviated object id: 1 to 40 hex digits.
pub open spec fn is_oid_text(s: Seq<char>) -> bool {
    0 < s.len() <= 40 && forall|i: int| 0 <= i < s.len() ==> is_hex_digit(#[trigger] s[i])
}

/// Relies on git2's `Oid::from_str`: it accepts exactly 1 to 40 hex digits
/// (shorter ids are padded with zeros) and refuses anything else.
#[verifier::external_body]
pub(crate) fn oid_from_str(s: &str) -> (r: Result<git2::Oid, git2::Error>)
    ensures
        r is Ok <==> is_oid_text(s@),
{
    git2::Oid::from_str(s)
}

/// Relies on git2's `Repository::find_commit`: looks a commit up by id.
#[verifier::external_body]
pub(crate) fn find_commit<'a>(repo: &'a git2::Repository, id: git2::Oid) -> (r: Result<
    git2::Commit<'a>,
    git2::Error,
>) {
    repo.find_commit(id)
}

/// Relies on git2's `Repository::find_object`: looks an object of any kind up by id.
#[verifier::external_body]
pub(crate) fn find_object<'a>(repo: &'a git2::Repository, id: git2::Oid) -> (r: Result<
    git2::Object<'a>,
    git2::Error,
>) {
    repo.find_object(id, None)
}

/// Relies on git2's `Repository::merge_base`: the best common ancestor of two commits.
#[verifier::external_body]
pub(crate) fn merge_base(repo: &git2::Repository, one: git2::Oid, two: git2::Oid) -> (r: Result<
    git2::Oid,
    git2::Error,
>) {
    repo.merge_base(one, two)
}

/// Relies on git2's `MergeOptions::new`: the default merge options.
#[verifier::external_body]
pub(crate) fn merge_options() -> (r: git2::MergeOptions) {
    git2::MergeOptions::new()
}

/// Relies on git2's `MergeOptions::file_favor`, with `FileFavor::Theirs`: on a
/// conflicting region inside a file the merge takes "their" side.
#[verifier::external_body]
pub(crate) fn favor_theirs(opts: &mut git2::MergeOptions) {
    opts.file_favor(git2::FileFavor::Theirs);
}

/// Relies on git2's `Repository::merge_trees`: a three-way merge of trees into
/// an in-memory index, with the conflicts that it could not resolve.
#[verifier::external_body]
pub(crate) fn merge_trees(
    repo: &git2::Repository,
    ancestor: &git2::Tree,
    ours: &git2::Tree,
    theirs: &git2::Tree,
    opts: &git2::MergeOptions,
) -> (r: Result<git2::Index, git2::Error>) {
    repo.merge_trees(ancestor, ours, theirs, Some(opts))
}

/// Relies on git2's `Index::has_conflicts`.
#[verifier::external_body]
pub(crate) fn has_conflicts(idx: &git2::Index) -> (r: bool) {
    idx.has_conflicts()
}

/// Relies on git2's `Index::conflicts`: the conflicting paths of the index, one
/// item each, `None` where reading an item failed.
#[verifier::external_body]
pub(crate) fn conflicts(idx: &git2::Index) -> (r: Result<Vec<Option<Conflict>>, git2::Error>) {
    let side = |e: git2::IndexEntry| ConflictSide { path: e.path.clone(), flags: e.flags, entry: e };
    Ok(idx.conflicts()?.map(|c| c.ok().map(|c| Conflict {
        ancestor: c.ancestor.map(side),
        our: c.our.map(side),
        their: c.their.map(side),
    })).collect())
}

/// Relies on git2's `Index::add`: adds a copy of `e` that carries `flags`,
/// and so the stage that they hold, at its path.
#[verifier::external_body]
pub(crate) fn index_add(idx: &mut git2::Index, e: &git2::IndexEntry, flags: u16) -> (r: Result<
    (),
    git2::Error,
>) {
    idx.add(&git2::IndexEntry {
        ctime: e.ctime, mtime: e.mtime, dev: e.dev, ino: e.ino, mode: e.mode, uid: e.uid,
        gid: e.gid, file_size: e.file_size, id: e.id, flags, flags_extended: e.flags_extended,
        path: e.path.clone(),
    })
}

/// Relies on git2's `Index::remove`: drops the entry at a path and stage.
#[verifier::external_body]
pub(crate) fn index_remove(idx: &mut git2::Index, path: &str, stage: i32) -> (r: Result<(), git2::Error>) {
    idx.remove(std::path::Path::new(path), stage)
}

/// Relies on git2's `Index::write_tree_to`: writes the index as a tree object
/// and returns its id; fails while conflicts remain.
#[verifier::external_body]
pub(crate) fn write_tree_to(idx: &mut git2::Index, repo: &git2::Repository) -> (r: Result<
    git2::Oid,
    git2::Error,
>) {
    idx.write_tree_to(repo)
}

} // verus!
