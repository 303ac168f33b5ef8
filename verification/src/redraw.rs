//! Pending redraw requests, merged per window.

use vstd::prelude::*;
use std::collections::VecDeque;
use crate::event::WindowId;

verus! {

/// The pending requests after one more for `id`: a window that already waits is not
/// listed a second time.
pub open spec fn with_request(pending: Seq<WindowId>, id: WindowId) -> Seq<WindowId> {
    if pending.contains(id) {
        pending
    } else {
        pending.push(id)
    }
}

/// The pending requests after a series of requests, the first request first.
pub open spec fn with_requests(pending: Seq<WindowId>, ids: Seq<WindowId>) -> Seq<WindowId>
    decreases ids.len(),
{
    if ids.len() == 0 {
        pending
    } else {
        with_request(with_requests(pending, ids.drop_last()), ids.last())
    }
}

/// One more request lists `id`, keeps what was listed where it was, lists no other window,
/// and keeps the list free of duplicates.
pub proof fn lemma_with_request(pending: Seq<WindowId>, id: WindowId)
    ensures
        pending.no_duplicates() ==> with_request(pending, id).no_duplicates(),
        with_request(pending, id).contains(id),
        forall|w: WindowId|
            with_request(pending, id).contains(w) <==> (pending.contains(w) || w == id),
        pending.is_prefix_of(with_request(pending, id)),
{
    let after = with_request(pending, id);
    if pending.contains(id) {
        assert forall|w: WindowId| w == id implies pending.contains(w) by {}
    } else {
        assert(after[pending.len() as int] == id);
        assert forall|w: WindowId| after.contains(w) implies (pending.contains(w) || w == id) by {}
        assert forall|w: WindowId| pending.contains(w) implies after.contains(w) by {
            let i = choose|i: int| 0 <= i < pending.len() && pending[i] == w;
            assert(after[i] == w);
        }
    }
}

/// However often and in whatever order windows ask, each window that asked is listed
/// exactly once, and no other window is listed.
pub proof fn lemma_with_requests(pending: Seq<WindowId>, ids: Seq<WindowId>)
    ensures
        pending.no_duplicates() ==> with_requests(pending, ids).no_duplicates(),
        forall|w: WindowId|
            with_requests(pending, ids).contains(w) <==> (pending.contains(w) || ids.contains(w)),
        pending.is_prefix_of(with_requests(pending, ids)),
    decreases ids.len(),
{
    if ids.len() > 0 {
        let before = with_requests(pending, ids.drop_last());
        lemma_with_requests(pending, ids.drop_last());
        lemma_with_request(before, ids.last());
        let after = with_requests(pending, ids);
        assert forall|w: WindowId| after.contains(w) <==> (pending.contains(w) || ids.contains(w)) by {
            if ids.contains(w) {
                let i = choose|i: int| 0 <= i < ids.len() && ids[i] == w;
                if i < ids.len() - 1 {
                    assert(ids.drop_last()[i] == w);
                }
            }
            if ids.drop_last().contains(w) {
                let i = choose|i: int| 0 <= i < ids.drop_last().len() && ids.drop_last()[i] == w;
                assert(ids[i] == w);
            }
        }
    }
}

/// The windows that asked for a redraw and were not served yet, in the order in which
/// they first asked.
#[derive(Debug)]
pub struct RedrawQueue {
    ids: VecDeque<WindowId>,
}

impl View for RedrawQueue {
    type V = Seq<WindowId>;

    closed spec fn view(&self) -> Seq<WindowId> {
        self.ids@
    }
}

impl RedrawQueue {
    /// No window is listed twice. This holds of every queue that `new` made, whatever was
    /// done with it since.
    pub open spec fn wf(&self) -> bool {
        self@.no_duplicates()
    }

    /// A queue in which no window waits.
    pub fn new() -> (q: RedrawQueue)
        ensures
            q@ == Seq::<WindowId>::empty(),
            q.wf(),
    {
        RedrawQueue { ids: VecDeque::new() }
    }

    /// How many windows wait.
    pub fn len(&self) -> (n: usize)
        ensures
            n == self@.len(),
    {
        self.ids.len()
    }

    /// Whether no window waits.
    pub fn is_empty(&self) -> (r: bool)
        ensures
            r == (self@.len() == 0),
    {
        self.ids.len() == 0
    }

    /// Whether `id` waits for a redraw.
    pub fn contains(&self, id: WindowId) -> (r: bool)
        ensures
            r == self@.contains(id),
    {
        let n: usize = self.ids.len();
        let mut i: usize = 0;
        while i < n
            invariant
                n == self.ids@.len(),
                i <= n,
                forall|j: int| 0 <= j < i ==> self.ids@[j] != id,
            decreases n - i,
        {
            if self.ids[i] == id {
                return true;
            }
            i += 1;
        }
        false
    }

    /// Records a request for `id`; returns whether the window was not waiting already.
    pub fn request(&mut self, id: WindowId) -> (added: bool)
        ensures
            old(self).wf() ==> final(self).wf(),
            final(self)@ == with_request(old(self)@, id),
            final(self)@.contains(id),
            added == !old(self)@.contains(id),
    {
        proof {
            lemma_with_request(self@, id);
        }
        if self.contains(id) {
            false
        } else {
            self.ids.push_back(id);
            true
        }
    }

    /// Takes the window that asked first.
    pub fn pop(&mut self) -> (id: Option<WindowId>)
        ensures
            old(self).wf() ==> final(self).wf(),
            old(self)@.len() == 0 ==> id.is_none() && final(self)@ == old(self)@,
            old(self)@.len() > 0 ==> id == Some(old(self)@[0]) && final(self)@ == old(
                self,
            )@.drop_first(),
    {
        self.ids.pop_front()
    }

    /// Takes every pending request, leaving none.
    pub fn take(&mut self) -> (taken: RedrawQueue)
        ensures
            taken@ == old(self)@,
            final(self)@ == Seq::<WindowId>::empty(),
            final(self).wf(),
    {
        let mut taken = RedrawQueue { ids: VecDeque::new() };
        std::mem::swap(&mut self.ids, &mut taken.ids);
        taken
    }
}

} // verus!
