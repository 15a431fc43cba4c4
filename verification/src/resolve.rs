//! The containment rule behind `--input-dir`: which canonical paths lie inside the
//! directory the user named.
//!
//! A resolved file is accepted only if its canonical path starts with the canonical
//! directory **followed by a path separator**. The separator is not decoration:
//! comparing the bare prefix would accept `/home/user/notes-evil/secret.tex` for a
//! sandbox rooted at `/home/user/notes`, because the one string does start with the
//! other. The comparison is on the encoded bytes of the paths.

use vstd::prelude::*;

verus! {

/// Whether `bytes` begins with `prefix`.
pub open spec fn bytes_start_with(bytes: Seq<u8>, prefix: Seq<u8>) -> bool {
    prefix.len() <= bytes.len() && bytes.take(prefix.len() as int) == prefix
}

/// Whether `bytes` ends with `suffix`.
pub open spec fn bytes_end_with(bytes: Seq<u8>, suffix: Seq<u8>) -> bool {
    suffix.len() <= bytes.len() && bytes.skip(bytes.len() - suffix.len()) == suffix
}

/// The prefix a contained path must have: the root and one separator, unless the root
/// already ends in one — the filesystem root does, and a second separator would make
/// `/foo` fail to match `//`.
pub open spec fn containment_prefix(root: Seq<u8>, separator: Seq<u8>) -> Seq<u8> {
    if bytes_end_with(root, separator) {
        root
    } else {
        root + separator
    }
}

/// The sandbox a `--input-dir` resolver serves files from: a canonical directory, and
/// the prefix every path inside it has.
#[derive(Clone, Debug)]
pub struct DirectoryResolver {
    /// The canonical sandbox root.
    root: Vec<u8>,
    /// `root` with a trailing separator: this, not `root`, is what a contained path must
    /// be prefixed by.
    root_prefix: Vec<u8>,
}

/// A sandbox, as a mathematical value.
pub struct ResolverView {
    pub root: Seq<u8>,
    pub root_prefix: Seq<u8>,
}

impl View for DirectoryResolver {
    type V = ResolverView;

    closed spec fn view(&self) -> ResolverView {
        ResolverView { root: self.root@, root_prefix: self.root_prefix@ }
    }
}

/// Whether `bytes` begins with `prefix`.
fn starts_with_bytes(bytes: &[u8], prefix: &[u8]) -> (b: bool)
    ensures
        b == bytes_start_with(bytes@, prefix@),
{
    if prefix.len() > bytes.len() {
        return false;
    }
    let mut i: usize = 0;
    while i < prefix.len()
        invariant
            prefix@.len() <= bytes@.len(),
            i <= prefix@.len(),
            forall|j: int| 0 <= j < i ==> bytes@[j] == prefix@[j],
        decreases prefix@.len() - i,
    {
        if bytes[i] != prefix[i] {
            assert(bytes@.take(prefix@.len() as int)[i as int] != prefix@[i as int]);
            return false;
        }
        i = i + 1;
    }
    assert(bytes@.take(prefix@.len() as int) =~= prefix@);
    true
}

/// Whether `bytes` ends with `suffix`.
fn ends_with_bytes(bytes: &[u8], suffix: &[u8]) -> (b: bool)
    ensures
        b == bytes_end_with(bytes@, suffix@),
{
    if suffix.len() > bytes.len() {
        return false;
    }
    let start = bytes.len() - suffix.len();
    let mut i: usize = 0;
    while i < suffix.len()
        invariant
            start + suffix@.len() == bytes@.len(),
            bytes@.len() <= usize::MAX,
            i <= suffix@.len(),
            forall|j: int| 0 <= j < i ==> bytes@[start + j] == suffix@[j],
        decreases suffix@.len() - i,
    {
        if bytes[start + i] != suffix[i] {
            assert(bytes@.skip(start as int)[i as int] != suffix@[i as int]);
            return false;
        }
        i = i + 1;
    }
    assert(bytes@.skip(start as int) =~= suffix@);
    true
}

/// A copy of a byte slice.
fn bytes_of(bytes: &[u8]) -> (copy: Vec<u8>)
    ensures
        copy@ == bytes@,
{
    let mut copy: Vec<u8> = Vec::new();
    let mut i: usize = 0;
    while i < bytes.len()
        invariant
            i <= bytes@.len(),
            copy@ == bytes@.take(i as int),
        decreases bytes@.len() - i,
    {
        copy.push(bytes[i]);
        assert(bytes@.take(i + 1) =~= bytes@.take(i as int).push(bytes@[i as int]));
        i = i + 1;
    }
    assert(bytes@.take(bytes@.len() as int) =~= bytes@);
    copy
}

impl DirectoryResolver {
    /// Root a resolver at a directory, given its canonical path (the one `realpath(3)`
    /// reports) and the platform's path separator.
    ///
    /// Answers `None` when the canonical path is not a directory: a mistyped
    /// `--input-dir` is a mistake in the command, not in the document, and is refused
    /// before anything is read.
    pub fn new(root: &[u8], root_is_directory: bool, separator: &[u8]) -> (resolver: Option<DirectoryResolver>)
        ensures
            match resolver {
                Some(r) => root_is_directory && r@.root == root@ && r@.root_prefix == containment_prefix(root@, separator@),
                None => !root_is_directory,
            },
    {
        if !root_is_directory {
            return None;
        }
        let mut prefix = bytes_of(root);
        if !ends_with_bytes(root, separator) {
            let mut i: usize = 0;
            while i < separator.len()
                invariant
                    i <= separator@.len(),
                    prefix@ == root@ + separator@.take(i as int),
                decreases separator@.len() - i,
            {
                prefix.push(separator[i]);
                assert(separator@.take(i + 1) =~= separator@.take(i as int).push(separator@[i as int]));
                i = i + 1;
            }
            assert(separator@.take(separator@.len() as int) =~= separator@);
        }
        Some(DirectoryResolver { root: bytes_of(root), root_prefix: prefix })
    }

    /// The canonical sandbox root.
    pub fn root(&self) -> (root: &[u8])
        ensures
            root@ == self@.root,
    {
        self.root.as_slice()
    }

    /// Whether `candidate` — which must already be canonical — lies inside the sandbox.
    ///
    /// The root itself is *not* contained — it is a directory, and a directory is not a
    /// document — except when the root is the filesystem root, where the separator is
    /// the whole of it.
    pub fn contains(&self, candidate: &[u8]) -> (inside: bool)
        ensures
            inside == bytes_start_with(candidate@, self@.root_prefix),
    {
        starts_with_bytes(candidate, self.root_prefix.as_slice())
    }
}

/// No path that merely shares the root's name as a prefix is inside: a sibling such as
/// `root-evil/…` is refused whenever the root does not itself end with the separator.
pub proof fn lemma_sibling_is_outside(root: Seq<u8>, separator: Seq<u8>, candidate: Seq<u8>)
    requires
        separator.len() == 1,
        !bytes_end_with(root, separator),
        bytes_start_with(candidate, root),
        candidate.len() > root.len(),
        candidate[root.len() as int] != separator[0],
    ensures
        !bytes_start_with(candidate, containment_prefix(root, separator)),
{
    let prefix = containment_prefix(root, separator);
    if bytes_start_with(candidate, prefix) {
        assert(prefix[root.len() as int] == separator[0]);
        assert(candidate.take(prefix.len() as int)[root.len() as int] == candidate[root.len() as int]);
    }
}

/// Everything inside the sandbox is below its root: a contained path begins with the
/// root, and is longer than it unless the root is the filesystem root.
pub proof fn lemma_contained_is_below_root(root: Seq<u8>, separator: Seq<u8>, candidate: Seq<u8>)
    requires
        bytes_start_with(candidate, containment_prefix(root, separator)),
    ensures
        bytes_start_with(candidate, root),
        !bytes_end_with(root, separator) && separator.len() > 0 ==> candidate.len() > root.len(),
{
    let prefix = containment_prefix(root, separator);
    assert(candidate.take(root.len() as int) =~= prefix.take(root.len() as int));
    assert(prefix.take(root.len() as int) =~= root);
}

} // verus!
