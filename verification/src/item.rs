//! A labelled nesting of items: each `append` wraps the current item in a
//! new labelled layer, so a chain of appends spells out an extraction path.

use vstd::prelude::*;

verus! {

/// One labelled layer around an inner item.
#[derive(Clone, Copy, Debug)]
pub struct Item<'a, T> {
    pub label: &'a str,
    inner: T,
}

impl<'a, T> Item<'a, T> {
    /// The label of this layer.
    pub closed spec fn spec_label(self) -> &'a str {
        self.label
    }

    /// The item wrapped by this layer.
    pub closed spec fn spec_inner(self) -> T {
        self.inner
    }
}

impl<'a> Item<'a, ()> {
    /// The innermost item, carrying only its label.
    pub fn create(label: &'a str) -> (r: Item<'a, ()>)
        ensures
            r.spec_label() == label,
    {
        Item { label, inner: () }
    }
}

impl<'a, T: Copy> Item<'a, T> {
    /// The item wrapped by this layer.
    pub fn inner(&self) -> (r: T)
        ensures
            r == self.spec_inner(),
    {
        self.inner
    }

    /// Wraps this item in a new layer labelled `label`.
    pub fn append(self, label: &'a str) -> (r: Item<'a, Item<'a, T>>)
        ensures
            r.spec_label() == label,
            r.spec_inner() == self,
    {
        Item { label, inner: self }
    }
}

} // verus!
