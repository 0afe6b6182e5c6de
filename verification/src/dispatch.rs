//! A small rendering trait with two implementors and the generic functions
//! that dispatch through it, each with an exact contract.

use vstd::prelude::*;

verus! {

/// Something that can render itself down to a number. `spec_render` is the
/// mathematical value an implementor promises to produce; `renderable`
/// carries whatever bound the implementor needs to produce it without
/// overflow.
pub trait Renderer {
    /// The value `render` must return.
    spec fn spec_render(&self) -> u64;

    /// When `render` may be called.
    spec fn renderable(&self) -> bool;

    fn render(&self) -> (r: u64)
        requires
            self.renderable(),
        ensures
            r == self.spec_render(),
    ;
}

/// Renders to its datum unchanged.
pub struct ComponentA {
    pub data: u64,
}

impl Renderer for ComponentA {
    open spec fn spec_render(&self) -> u64 {
        self.data
    }

    open spec fn renderable(&self) -> bool {
        true
    }

    #[inline(never)]
    fn render(&self) -> (r: u64) {
        self.data
    }
}

/// Renders to twice its datum.
pub struct ComponentB {
    pub data: u64,
}

impl Renderer for ComponentB {
    open spec fn spec_render(&self) -> u64 {
        (2 * self.data) as u64
    }

    open spec fn renderable(&self) -> bool {
        self.data <= u64::MAX / 2
    }

    #[inline(never)]
    fn render(&self) -> (r: u64) {
        self.data * 2
    }
}

/// Renders an item through static dispatch: the compiler specializes this
/// function for each concrete `Renderer`.
#[inline(never)]
pub fn process_static<T: Renderer>(item: &T) -> (r: u64)
    requires
        item.renderable(),
    ensures
        r == item.spec_render(),
{
    item.render()
}

/// Renders an item received through an abstract interface. (The trait
/// object of a dynamically dispatched version lies outside what the
/// verifier accepts, so this too is compiled per concrete type.)
#[inline(never)]
pub fn process_dynamic<T: Renderer>(item: &T) -> (r: u64)
    requires
        item.renderable(),
    ensures
        r == item.spec_render(),
{
    item.render()
}

} // verus!
