//! The tree element wrapper: every AST element is stored in a [`Node`]
//! together with a metadata payload (source location, annotations, ...).
//!
//! Nodes have plain value semantics here: a node owns its element and its
//! metadata, mutation goes through `&mut` access, and duplicating a node
//! duplicates its contents. A [`NodeWeak`] is the non-owning counterpart;
//! under value semantics it keeps nothing alive, and all weak handles
//! compare equal so that a back-reference can never send a structural
//! equality check into a cycle.

use vstd::prelude::*;

verus! {

/// Anything that can live inside a [`Node`].
pub trait NodeElt: Sized + PartialEq + Eq {

}

impl<T: Sized + PartialEq + Eq> NodeElt for T {

}

/// A metadata payload: a node element that additionally has a default value.
pub trait NodeMeta: NodeElt + Default {

}

impl<T: NodeElt + Default> NodeMeta for T {

}

/// A tree element `elt` paired with its metadata `meta`.
#[derive(Debug, Clone, PartialEq, Eq)]
pub struct Node<T: NodeElt, M: NodeMeta> {
    pub elt: T,
    pub meta: M,
}

impl<T: NodeElt, M: NodeMeta> Node<T, M> {
    /// Wraps an element and its metadata into a node.
    pub fn new(elt: T, meta: M) -> (r: Self)
        ensures
            r.elt == elt,
            r.meta == meta,
    {
        Node { elt, meta }
    }

    /// Replaces the metadata payload, possibly changing its type.
    pub fn meta<U: NodeMeta>(self, meta: U) -> (r: Node<T, U>)
        ensures
            r.elt == self.elt,
            r.meta == meta,
    {
        Node { elt: self.elt, meta }
    }

    /// Replaces the element by applying `f` to the current element.
    pub fn emap<U: NodeElt, F: FnOnce(&T) -> U>(self, f: F) -> (r: Node<U, M>)
        requires
            call_requires(f, (&self.elt,)),
        ensures
            call_ensures(f, (&self.elt,), r.elt),
            r.meta == self.meta,
    {
        Node { elt: f(&self.elt), meta: self.meta }
    }

    /// Replaces the metadata by applying `f` to the current metadata.
    pub fn mmap<U: NodeMeta, F: FnOnce(&M) -> U>(self, f: F) -> (r: Node<T, U>)
        requires
            call_requires(f, (&self.meta,)),
        ensures
            call_ensures(f, (&self.meta,), r.meta),
            r.elt == self.elt,
    {
        Node { elt: self.elt, meta: f(&self.meta) }
    }

    /// Rewrites the element in place, threading it through `f`.
    pub fn emap_mut<F: FnOnce(T) -> T>(self, f: F) -> (r: Self)
        requires
            call_requires(f, (self.elt,)),
        ensures
            call_ensures(f, (self.elt,), r.elt),
            r.meta == self.meta,
    {
        Node { elt: f(self.elt), meta: self.meta }
    }

    /// Rewrites the metadata in place, threading it through `f`.
    pub fn mmap_mut<F: FnOnce(M) -> M>(self, f: F) -> (r: Self)
        requires
            call_requires(f, (self.meta,)),
        ensures
            call_ensures(f, (self.meta,), r.meta),
            r.elt == self.elt,
    {
        Node { elt: self.elt, meta: f(self.meta) }
    }

    /// Read access to the element.
    pub fn get(&self) -> (r: &T)
        ensures
            r == self.elt,
    {
        &self.elt
    }

    /// Exclusive mutable access to the element.
    pub fn get_mut(&mut self) -> (r: &mut T)
        ensures
            *r == old(self).elt,
            final(self).elt == *final(r),
            final(self).meta == old(self).meta,
    {
        &mut self.elt
    }

    /// A non-owning handle onto this node.
    pub fn as_weak(&self) -> (r: NodeWeak<T, M>) {
        NodeWeak { elt: core::marker::PhantomData, meta: core::marker::PhantomData }
    }
}

/// The non-owning counterpart of a [`Node`]: it holds nothing, keeps
/// nothing alive, and any two weak handles of the same type are equal.
#[derive(Debug, PartialEq, Eq)]
pub struct NodeWeak<T: NodeElt, M: NodeMeta> {
    elt: core::marker::PhantomData<T>,
    meta: core::marker::PhantomData<M>,
}

impl<T: NodeElt, M: NodeMeta> Clone for NodeWeak<T, M> {
    fn clone(&self) -> (r: Self)
        ensures
            r == *self,
    {
        NodeWeak { elt: core::marker::PhantomData, meta: core::marker::PhantomData }
    }
}

impl<T: NodeElt, M: NodeMeta> NodeWeak<T, M> {
    /// A weak handle owns nothing, so there is never a live node to
    /// recover from it: upgrading always comes back empty.
    pub fn upgrade(&self) -> (r: Option<Node<T, M>>)
        ensures
            r is None,
    {
        None
    }
}

/// Convenience constructors for wrapping any element into a [`Node`].
pub trait NodeExt: NodeElt {
    /// Wraps `self` with default metadata.
    fn elt<M: NodeMeta>(self) -> (r: Node<Self, M>)
        ensures
            r.elt == self,
    ;

    /// Wraps `self` with the given metadata.
    fn node<M: NodeMeta>(self, meta: M) -> (r: Node<Self, M>)
        ensures
            r.elt == self,
            r.meta == meta,
    ;
}

impl<T: NodeElt> NodeExt for T {
    fn elt<M: NodeMeta>(self) -> (r: Node<Self, M>) {
        Node::new(self, M::default())
    }

    fn node<M: NodeMeta>(self, meta: M) -> (r: Node<Self, M>) {
        Node::new(self, meta)
    }
}

} // verus!
