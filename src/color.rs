//! The color-management context that a decoding thread owns: created lazily,
//! lent to one decode at a time, handed back for teardown.

use vstd::prelude::*;

verus! {

/// The slot that holds a thread's native color-transform context.
pub struct ColorMgmt {
    ctx: Option<u64>,
    in_use: bool,
}

/// The contents of a [`ColorMgmt`].
pub struct ColorMgmtView {
    /// The handle of the native context, once created.
    pub ctx: Option<u64>,
    /// A decode holds the context.
    pub in_use: bool,
}

/// A context is never missing while a decode holds it.
pub open spec fn color_mgmt_wf(v: ColorMgmtView) -> bool {
    v.in_use ==> v.ctx is Some
}

impl View for ColorMgmt {
    type V = ColorMgmtView;

    closed spec fn view(&self) -> ColorMgmtView {
        ColorMgmtView { ctx: self.ctx, in_use: self.in_use }
    }
}

impl ColorMgmt {
    /// A slot with no context yet.
    pub fn new() -> (r: Self)
        ensures
            r@ == (ColorMgmtView { ctx: None, in_use: false }),
    {
        ColorMgmt { ctx: None, in_use: false }
    }

    /// Whether the native context has been created.
    pub fn is_initialized(&self) -> (r: bool)
        ensures
            r == self@.ctx is Some,
    {
        self.ctx.is_some()
    }

    /// Whether a decode holds the context.
    pub fn is_in_use(&self) -> (r: bool)
        ensures
            r == self@.in_use,
    {
        self.in_use
    }

    /// Stores the handle of a newly created native context.
    pub fn install(&mut self, ctx: u64)
        requires
            old(self)@.ctx is None,
            color_mgmt_wf(old(self)@),
        ensures
            final(self)@ == (ColorMgmtView { ctx: Some(ctx), in_use: false }),
    {
        self.ctx = Some(ctx);
        self.in_use = false;
    }

    /// Lends the context to a decode: its handle, when it exists and no other
    /// decode holds it; `None` otherwise, and nothing changes.
    pub fn acquire(&mut self) -> (r: Option<u64>)
        requires
            color_mgmt_wf(old(self)@),
        ensures
            color_mgmt_wf(final(self)@),
            (old(self)@.ctx is Some && !old(self)@.in_use) ==> (r == old(self)@.ctx
                && final(self)@ == (ColorMgmtView { ctx: old(self)@.ctx, in_use: true })),
            !(old(self)@.ctx is Some && !old(self)@.in_use) ==> (r == None::<u64> && final(self)@
                == old(self)@),
    {
        if self.in_use {
            return None;
        }
        match self.ctx {
            Some(ctx) => {
                self.in_use = true;
                Some(ctx)
            },
            None => None,
        }
    }

    /// Takes the context back from the decode that held it.
    pub fn release(&mut self)
        requires
            color_mgmt_wf(old(self)@),
            old(self)@.in_use,
        ensures
            final(self)@ == (ColorMgmtView { ctx: old(self)@.ctx, in_use: false }),
    {
        self.in_use = false;
    }

    /// Empties the slot for teardown, returning the handle to clean up.
    pub fn take_context(&mut self) -> (r: Option<u64>)
        requires
            color_mgmt_wf(old(self)@),
            !old(self)@.in_use,
        ensures
            r == old(self)@.ctx,
            final(self)@ == (ColorMgmtView { ctx: None, in_use: false }),
    {
        let r = self.ctx;
        self.ctx = None;
        r
    }
}

} // verus!
