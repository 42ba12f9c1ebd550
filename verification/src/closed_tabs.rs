//! Recently closed tabs, to be reopened in reverse order.

use crate::text::opt_text;
use std::collections::VecDeque;
use vstd::prelude::*;

verus! {

/// How many closed tabs are remembered.
pub const CLOSED_TAB_STACK_CAP: usize = 25;

/// A tab as it was when it closed.
#[derive(Debug)]
pub struct ClosedTab {
    pub url: String,
    pub title: Option<String>,
}

/// [`ClosedTab`] as values.
pub struct ClosedTabView {
    pub url: Seq<char>,
    pub title: Option<Seq<char>>,
}

impl View for ClosedTab {
    type V = ClosedTabView;

    open spec fn view(&self) -> ClosedTabView {
        ClosedTabView { url: self.url@, title: opt_text(self.title) }
    }
}

/// A stack of closed tabs, the most recent first, of bounded size.
#[derive(Debug)]
pub struct ClosedTabStack {
    /// The tabs, the most recently closed in front.
    pub inner: VecDeque<ClosedTab>,
}

/// The stack with `tab` on top; a full stack first loses its oldest tab.
pub open spec fn pushed(stack: Seq<ClosedTabView>, tab: ClosedTabView) -> Seq<ClosedTabView> {
    if stack.len() >= CLOSED_TAB_STACK_CAP {
        seq![tab] + stack.drop_last()
    } else {
        seq![tab] + stack
    }
}

impl View for ClosedTabStack {
    type V = Seq<ClosedTabView>;

    open spec fn view(&self) -> Seq<ClosedTabView> {
        self.inner@.map_values(|t: ClosedTab| t@)
    }
}

impl ClosedTabStack {
    /// The stack holds no more tabs than its bound.
    pub open spec fn wf(&self) -> bool {
        self@.len() <= CLOSED_TAB_STACK_CAP
    }

    /// An empty stack.
    pub fn new() -> (r: ClosedTabStack)
        ensures
            r@ == Seq::<ClosedTabView>::empty(),
            r.wf(),
    {
        let r = ClosedTabStack { inner: VecDeque::new() };
        assert(r@ =~= Seq::<ClosedTabView>::empty());
        r
    }

    /// Puts a closed tab on top; a full stack first loses its oldest tab.
    pub fn push(&mut self, tab: ClosedTab)
        ensures
            final(self)@ == pushed(old(self)@, tab@),
            old(self).wf() ==> final(self).wf(),
    {
        let ghost before = self@;
        if self.inner.len() >= CLOSED_TAB_STACK_CAP {
            let _ = self.inner.pop_back();
            assert(self@ =~= before.drop_last());
        }
        self.inner.push_front(tab);
        assert(self@ =~= pushed(before, tab@));
    }

    /// Takes the most recently closed tab; `None` where there is none.
    pub fn pop(&mut self) -> (r: Option<ClosedTab>)
        ensures
            match r {
                Some(tab) => old(self)@.len() > 0 && tab@ == old(self)@[0] && final(self)@
                    == old(self)@.drop_first(),
                None => old(self)@.len() == 0 && final(self)@ == old(self)@,
            },
            old(self).wf() ==> final(self).wf(),
    {
        let ghost before = self@;
        let r = self.inner.pop_front();
        proof {
            if r is Some {
                assert(self@ =~= before.drop_first());
            }
        }
        r
    }
}

/// What was closed last comes back first; below it the stack is as it was,
/// save that a full one has lost its oldest tab.
pub proof fn pop_undoes_push(stack: Seq<ClosedTabView>, tab: ClosedTabView)
    ensures
        pushed(stack, tab)[0] == tab,
        stack.len() < CLOSED_TAB_STACK_CAP ==> pushed(stack, tab).drop_first() == stack,
        stack.len() >= CLOSED_TAB_STACK_CAP ==> pushed(stack, tab).drop_first()
            == stack.drop_last(),
{
    if stack.len() < CLOSED_TAB_STACK_CAP {
        assert(pushed(stack, tab).drop_first() =~= stack);
    } else {
        assert(pushed(stack, tab).drop_first() =~= stack.drop_last());
    }
}

/// However many tabs close, the stack keeps to its bound.
pub proof fn stack_stays_bounded(stack: Seq<ClosedTabView>, tab: ClosedTabView)
    requires
        stack.len() <= CLOSED_TAB_STACK_CAP,
    ensures
        pushed(stack, tab).len() <= CLOSED_TAB_STACK_CAP,
{
}

} // verus!
