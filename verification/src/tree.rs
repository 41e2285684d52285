//! An arena-backed tree: nodes are addressed by their index in a vector,
//! each node holding its parent index and the indices of its children.
//! Index-based edges avoid cyclic ownership while keeping the walk to an
//! ancestor fast.

use vstd::prelude::*;

verus! {

/// One tree node: a value, the children's indices, and the parent's index
/// (`None` for a root).
#[derive(Debug)]
pub struct TreeNode<T> {
    pub val: T,
    pub childs: Vec<usize>,
    pub parent: Option<usize>,
}

/// Builds a `TreeNode` value field by field.
pub struct TreeNodeBuilder<T> {
    pub inner: TreeNode<T>,
}

impl<T> TreeNodeBuilder<T> {
    /// Starts a node with the given value, no children, and no parent.
    pub fn new(val: T) -> (r: Self)
        ensures
            r.inner.val == val,
            r.inner.childs@.len() == 0,
            r.inner.parent is None,
    {
        TreeNodeBuilder { inner: TreeNode { val, childs: Vec::new(), parent: None } }
    }

    /// Appends a child index.
    pub fn child(self, idx: usize) -> (r: Self)
        ensures
            r.inner.val == self.inner.val,
            r.inner.childs@ == self.inner.childs@.push(idx),
            r.inner.parent == self.inner.parent,
    {
        let TreeNodeBuilder { inner } = self;
        let TreeNode { val, mut childs, parent } = inner;
        childs.push(idx);
        TreeNodeBuilder { inner: TreeNode { val, childs, parent } }
    }

    /// Sets the parent index.
    pub fn parent(self, idx: usize) -> (r: Self)
        ensures
            r.inner.val == self.inner.val,
            r.inner.childs == self.inner.childs,
            r.inner.parent == Some(idx),
    {
        let TreeNodeBuilder { inner } = self;
        let TreeNode { val, childs, parent: _ } = inner;
        TreeNodeBuilder { inner: TreeNode { val, childs, parent: Some(idx) } }
    }

    /// The finished node.
    pub fn build(self) -> (r: TreeNode<T>)
        ensures
            r == self.inner,
    {
        self.inner
    }

    /// The finished node behind an owning pointer.
    pub fn build_ref(self) -> (r: Box<TreeNode<T>>)
        ensures
            *r == self.inner,
    {
        Box::new(self.inner)
    }
}

/// A mutable borrow of one arena node.
pub fn node_mut<T>(nodes: &mut Vec<TreeNode<T>>, i: usize) -> (r: &mut TreeNode<T>)
    requires
        i < old(nodes)@.len(),
    ensures
        *r == old(nodes)@[i as int],
        final(nodes)@ == old(nodes)@.update(i as int, *final(r)),
{
    &mut nodes[i]
}

} // verus!
