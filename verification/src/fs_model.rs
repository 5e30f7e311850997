//! An explicit model of the filesystem fragment that one repair run works
//! on.
//!
//! The model is an arena of nodes: directories, regular files and other
//! entries (sockets, FIFOs, devices), each knowing its parent and, for
//! directories, its children.  A well-formed model is a forest in which a
//! child's index is strictly greater than its parent's, every child points
//! back at the directory holding it, and each directory's child list is
//! strictly sorted — so each entry hangs under at most one directory and
//! the tree has no cycles.
//!
//! Beside the tree, the model tracks the transient artifacts of a repair
//! attempt: how many ephemeral workspace directories exist, the copy
//! staged inside the workspace, and the replacement staged in the target's
//! parent directory while it awaits the final rename.

use vstd::prelude::*;

verus! {

/// What kind of entry a node of the model is.
#[derive(Clone, Copy, Debug, PartialEq, Eq, Structural)]
pub enum NodeKind {
    /// A directory, holding child entries.
    Directory,
    /// A regular file, with bytes and a lock state.
    RegularFile,
    /// Anything else a path can name: a socket, a FIFO, a device.
    Special,
}

/// One entry of the modeled tree.
pub struct Node {
    /// The kind of entry.
    pub kind: NodeKind,
    /// The entry's name, or `None` when the name cannot be represented as
    /// text.
    pub name: Option<String>,
    /// Whether a conflicting whole-file advisory lock is held on the entry
    /// by another process.
    pub locked: bool,
    /// The file's bytes; empty for entries that are not regular files.
    pub content: Vec<u8>,
    /// Indices of the entries inside this directory, in listing order;
    /// empty for entries that are not directories.
    pub children: Vec<usize>,
    /// Index of the directory holding this entry, or `None` for the root
    /// of the model.
    pub parent: Option<usize>,
}

/// The copy of the target staged inside the ephemeral workspace.
pub struct StagedArtifact {
    /// The artifact's name, under the fixed temporary naming pattern.
    pub name: String,
    /// The staged bytes, copied verbatim from the target.
    pub bytes: Vec<u8>,
    /// Whether the unlock proxy has been applied to this copy: the
    /// lock-table entry of the process's own handle on the copy has been
    /// cleared.  The proxy does not reach the remote holder of the
    /// original lock.
    pub hint_cleared: bool,
}

/// The modeled filesystem state.
pub struct FsModel {
    /// The entries, as an arena indexed by `usize`.
    pub nodes: Vec<Node>,
    /// How many ephemeral workspace directories currently exist.
    pub workspaces: usize,
    /// The artifact inside the workspace, while one exists.
    pub staged: Option<StagedArtifact>,
    /// The replacement staged in the target's parent directory, awaiting
    /// the atomic rename; it lingers there if the rename never runs.
    pub pending: Option<Vec<u8>>,
}

impl FsModel {
    /// The index of child number `a` of node `i`.
    pub open spec fn child(self, i: int, a: int) -> int {
        self.nodes[i].children[a] as int
    }

    /// Well-formedness of the tree: child indices are in bounds and
    /// strictly greater than their parent's, children point back at the
    /// directory holding them, child lists are strictly sorted, and only
    /// directories have children.
    pub open spec fn wf(self) -> bool {
        &&& forall|i: int, a: int|
            0 <= i < self.nodes.len() && 0 <= a < self.nodes[i].children.len() ==> {
                &&& i < #[trigger] self.child(i, a)
                &&& self.child(i, a) < self.nodes.len()
                &&& self.nodes[self.child(i, a)].parent == Some(i as usize)
            }
        &&& forall|i: int, a: int, b: int|
            0 <= i < self.nodes.len() && 0 <= a && a < b && b < self.nodes[i].children.len()
                ==> #[trigger] self.child(i, a) < #[trigger] self.child(i, b)
        &&& forall|i: int|
            0 <= i < self.nodes.len() && !(#[trigger] self.nodes[i].kind is Directory)
                ==> self.nodes[i].children.len() == 0
        &&& forall|c: int|
            0 <= c < self.nodes.len() ==> ((#[trigger] self.nodes[c].parent) matches Some(p) ==> {
                &&& (p as int) < c
                &&& exists|a: int|
                    0 <= a < self.nodes[p as int].children.len() && self.child(p as int, a) == c
            })
    }

    /// Whether `c` lies in the subtree rooted at `root`: it is the root
    /// itself, or its parent chain reaches the root.  The chain is guarded
    /// by the well-formed fact that a parent's index is smaller than its
    /// child's.
    pub open spec fn under(self, root: int, c: int) -> bool
        decreases c,
        when 0 <= c
    {
        c == root || (match self.nodes[c].parent {
            Some(p) => if (p as int) < c {
                self.under(root, p as int)
            } else {
                false
            },
            None => false,
        })
    }

    /// No transient artifact of a repair attempt exists: no ephemeral
    /// workspace, nothing staged, nothing awaiting a rename.
    pub open spec fn quiescent(self) -> bool {
        &&& self.workspaces == 0
        &&& self.staged is None
        &&& self.pending is None
    }

    /// A fresh model holding a single empty root directory.
    pub fn new() -> (r: FsModel)
        ensures
            r.wf(),
            r.quiescent(),
            r.nodes.len() == 1,
            r.nodes[0].kind is Directory,
            r.nodes[0].children.len() == 0,
            r.nodes[0].parent is None,
            !r.nodes[0].locked,
    {
        let mut nodes: Vec<Node> = Vec::new();
        nodes.push(
            Node {
                kind: NodeKind::Directory,
                name: None,
                locked: false,
                content: Vec::new(),
                children: Vec::new(),
                parent: None,
            },
        );
        FsModel { nodes, workspaces: 0, staged: None, pending: None }
    }

    /// A model whose root is a single regular file with no parent
    /// directory: the shape on which a repair has nowhere to stage the
    /// replacement.
    pub fn new_with_root_file(name: Option<String>, content: Vec<u8>, locked: bool) -> (r: FsModel)
        ensures
            r.wf(),
            r.quiescent(),
            r.nodes.len() == 1,
            r.nodes[0].kind is RegularFile,
            r.nodes[0].name == name,
            r.nodes[0].content == content,
            r.nodes[0].locked == locked,
            r.nodes[0].parent is None,
    {
        let mut nodes: Vec<Node> = Vec::new();
        nodes.push(
            Node {
                kind: NodeKind::RegularFile,
                name,
                locked,
                content,
                children: Vec::new(),
                parent: None,
            },
        );
        FsModel { nodes, workspaces: 0, staged: None, pending: None }
    }

    /// Adds a new entry inside the directory `parent` and returns its
    /// index.  The new entry is appended at the end of the arena, so its
    /// index is the previous node count; every other entry is unchanged
    /// except that `parent`'s child list grows by the new index.
    pub fn add_child(
        &mut self,
        parent: usize,
        kind: NodeKind,
        name: Option<String>,
        locked: bool,
        content: Vec<u8>,
    ) -> (r: usize)
        requires
            old(self).wf(),
            parent < old(self).nodes.len(),
            old(self).nodes[parent as int].kind is Directory,
        ensures
            final(self).wf(),
            r == old(self).nodes.len(),
            final(self).nodes.len() == old(self).nodes.len() + 1,
            final(self).nodes[r as int].kind == kind,
            final(self).nodes[r as int].name == name,
            final(self).nodes[r as int].locked == locked,
            final(self).nodes[r as int].content == content,
            final(self).nodes[r as int].children.len() == 0,
            final(self).nodes[r as int].parent == Some(parent),
            forall|i: int|
                0 <= i < old(self).nodes.len() && i != parent
                    ==> final(self).nodes[i] == old(self).nodes[i],
            final(self).nodes[parent as int].children@ == old(self).nodes[parent as int].children@.push(
                r,
            ),
            final(self).nodes[parent as int].kind == old(self).nodes[parent as int].kind,
            final(self).nodes[parent as int].name == old(self).nodes[parent as int].name,
            final(self).nodes[parent as int].locked == old(self).nodes[parent as int].locked,
            final(self).nodes[parent as int].content == old(self).nodes[parent as int].content,
            final(self).nodes[parent as int].parent == old(self).nodes[parent as int].parent,
            final(self).workspaces == old(self).workspaces,
            final(self).staged == old(self).staged,
            final(self).pending == old(self).pending,
    {
        let r = self.nodes.len();
        self.nodes.push(
            Node { kind, name, locked, content, children: Vec::new(), parent: Some(parent) },
        );
        self.nodes[parent].children.push(r);
        proof {
            assert forall|i: int, a: int|
                0 <= i < self.nodes.len() && 0 <= a < self.nodes[i].children.len() implies {
                &&& i < #[trigger] self.child(i, a)
                &&& self.child(i, a) < self.nodes.len()
                &&& self.nodes[self.child(i, a)].parent == Some(i as usize)
            } by {
                if i == parent && a == self.nodes[i].children.len() - 1 {
                    assert(self.child(i, a) == r);
                } else {
                    assert(self.child(i, a) == old(self).child(i, a));
                    assert(old(self).child(i, a) < old(self).nodes.len());
                }
            }
            assert forall|i: int, a: int, b: int|
                0 <= i < self.nodes.len() && 0 <= a && a < b && b
                    < self.nodes[i].children.len() implies #[trigger] self.child(i, a)
                < #[trigger] self.child(i, b) by {
                if i == parent {
                    if b == self.nodes[i].children.len() - 1 {
                        assert(self.child(i, a) == old(self).child(i, a));
                        assert(old(self).child(i, a) < old(self).nodes.len());
                        assert(self.child(i, b) == r);
                    } else {
                        assert(self.child(i, a) == old(self).child(i, a));
                        assert(self.child(i, b) == old(self).child(i, b));
                        assert(old(self).child(i, a) < old(self).child(i, b));
                    }
                } else if i == r {
                    assert(self.nodes[i].children.len() == 0);
                } else {
                    assert(self.nodes[i] == old(self).nodes[i]);
                    assert(old(self).child(i, a) < old(self).child(i, b));
                    assert(self.child(i, a) == old(self).child(i, a));
                    assert(self.child(i, b) == old(self).child(i, b));
                }
            }
            assert forall|c: int|
                0 <= c < self.nodes.len() implies ((#[trigger] self.nodes[c].parent) matches Some(
                p,
            ) ==> {
                &&& (p as int) < c
                &&& exists|a: int|
                    0 <= a < self.nodes[p as int].children.len() && self.child(p as int, a) == c
            }) by {
                if self.nodes[c].parent is Some {
                    let p = self.nodes[c].parent->0 as int;
                    if c == r {
                        assert(p == parent);
                        let a = self.nodes[p].children.len() - 1;
                        assert(self.child(p, a) == c);
                    } else {
                        assert(self.nodes[c].parent == old(self).nodes[c].parent);
                        let a = choose|a: int|
                            0 <= a < old(self).nodes[p].children.len() && old(self).child(p, a)
                                == c;
                        assert(self.child(p, a) == old(self).child(p, a));
                        assert(0 <= a < self.nodes[p].children.len());
                    }
                }
            }
        }
        r
    }
}

} // verus!
