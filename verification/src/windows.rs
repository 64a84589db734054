//! The open windows of the application, keyed by window id, and the size
//! state of a window's drawing surface.

use vstd::prelude::*;

verus! {

/// The open windows, in the order they were added, each with the id that
/// the window system gave it.
pub struct WindowSet<W> {
    entries: Vec<(u64, W)>,
}

/// What is left of `entries` once the window `id` is closed: every entry
/// with another id, in the same order.
pub open spec fn without_window<W>(entries: Seq<(u64, W)>, id: u64) -> Seq<(u64, W)> {
    entries.filter(|e: (u64, W)| e.0 != id)
}

/// Whether some entry has the id `id`.
pub open spec fn has_window<W>(entries: Seq<(u64, W)>, id: u64) -> bool {
    exists|i: int| 0 <= i < entries.len() && (#[trigger] entries[i]).0 == id
}

impl<W> View for WindowSet<W> {
    type V = Seq<(u64, W)>;

    closed spec fn view(&self) -> Seq<(u64, W)> {
        self.entries@
    }
}

impl<W> WindowSet<W> {
    /// A set with no window.
    pub fn new() -> (s: Self)
        ensures
            s@ == Seq::<(u64, W)>::empty(),
    {
        WindowSet { entries: Vec::new() }
    }

    /// Adds the window `window` under the id `id`, after the others.
    pub fn push(&mut self, id: u64, window: W)
        ensures
            final(self)@ == old(self)@.push((id, window)),
    {
        self.entries.push((id, window));
    }

    /// The number of open windows.
    pub fn len(&self) -> (n: usize)
        ensures
            n == self@.len(),
    {
        self.entries.len()
    }

    /// Whether no window is open.
    pub fn is_empty(&self) -> (b: bool)
        ensures
            b == (self@.len() == 0),
    {
        self.entries.len() == 0
    }

    /// The id of the `i`-th window.
    pub fn id_at(&self, i: usize) -> (id: u64)
        requires
            i < self@.len(),
        ensures
            id == self@[i as int].0,
    {
        self.entries[i].0
    }

    /// The `i`-th window.
    pub fn get(&self, i: usize) -> (w: &W)
        requires
            i < self@.len(),
        ensures
            *w == self@[i as int].1,
    {
        &self.entries[i].1
    }

    /// The `i`-th window, to change it in place.
    pub fn get_mut(&mut self, i: usize) -> (w: &mut W)
        requires
            i < old(self)@.len(),
        ensures
            *w == old(self)@[i as int].1,
            final(self)@ == old(self)@.update(i as int, (old(self)@[i as int].0, *final(w))),
    {
        &mut self.entries[i].1
    }

    /// Where the first window with id `id` stands, if any.
    pub fn position(&self, id: u64) -> (r: Option<usize>)
        ensures
            match r {
                Some(i) => i < self@.len() && self@[i as int].0 == id && forall|j: int|
                    0 <= j < i ==> (#[trigger] self@[j]).0 != id,
                None => !has_window(self@, id),
            },
    {
        let n = self.entries.len();
        let mut i: usize = 0;
        while i < n
            invariant
                n == self@.len(),
                i <= n,
                forall|j: int| 0 <= j < i ==> (#[trigger] self@[j]).0 != id,
            decreases n - i,
        {
            if self.entries[i].0 == id {
                return Some(i);
            }
            i = i + 1;
        }
        None
    }

    /// Closes every window with id `id`, keeping the others in order, and
    /// says whether no window is left.
    pub fn close(&mut self, id: u64) -> (no_window_left: bool)
        ensures
            final(self)@ == without_window(old(self)@, id),
            no_window_left == (final(self)@.len() == 0),
    {
        let mut rest: Vec<(u64, W)> = Vec::new();
        std::mem::swap(&mut rest, &mut self.entries);
        let ghost orig = rest@;
        let n = rest.len();
        let mut k: usize = 0;
        while k < n
            invariant
                n == orig.len(),
                k <= n,
                rest@ == orig.skip(k as int),
                self.entries@ == without_window(orig.take(k as int), id),
            decreases n - k,
        {
            let e = rest.remove(0);
            proof {
                let t = orig.take(k as int + 1);
                assert(t.drop_last() =~= orig.take(k as int));
                assert(t.last() == e);
                reveal(Seq::filter);
            }
            if e.0 != id {
                self.entries.push(e);
            }
            proof {
                assert(orig.skip(k as int).subrange(1, orig.skip(k as int).len() as int) =~= orig.skip(
                    k as int + 1,
                ));
            }
            k = k + 1;
        }
        assert(orig.take(n as int) =~= orig);
        self.entries.len() == 0
    }
}

/// After closing `id`, no window with that id is left, every window with
/// another id is still there, and nothing else was added.
pub proof fn lemma_close_removes_exactly<W>(entries: Seq<(u64, W)>, id: u64)
    ensures
        !has_window(without_window(entries, id), id),
        forall|i: int|
            0 <= i < entries.len() && (#[trigger] entries[i]).0 != id ==> without_window(
                entries,
                id,
            ).contains(entries[i]),
        forall|e: (u64, W)| #[trigger] without_window(entries, id).contains(e) ==> entries.contains(e),
        without_window(entries, id).len() <= entries.len(),
{
    broadcast use vstd::seq_lib::group_filter_ensures;
    broadcast use vstd::seq::Seq::lemma_filter_contains_rev;
    let p = |e: (u64, W)| e.0 != id;
    let r = entries.filter(p);
    assert forall|i: int| 0 <= i < r.len() implies (#[trigger] r[i]).0 != id by {
        assert(p(r[i]));
    }
    assert forall|i: int|
        0 <= i < entries.len() && (#[trigger] entries[i]).0 != id implies r.contains(entries[i]) by {
        assert(p(entries[i]));
    }
}

/// Closing a window that is not open changes nothing.
pub proof fn lemma_close_absent<W>(entries: Seq<(u64, W)>, id: u64)
    requires
        !has_window(entries, id),
    ensures
        without_window(entries, id) == entries,
    decreases entries.len(),
{
    reveal(Seq::filter);
    if entries.len() > 0 {
        let p = entries.drop_last();
        assert(!has_window(p, id)) by {
            if has_window(p, id) {
                let i = choose|i: int| 0 <= i < p.len() && (#[trigger] p[i]).0 == id;
                assert(entries[i] == p[i]);
            }
        }
        lemma_close_absent(p, id);
        assert(entries.last() == entries[entries.len() - 1]);
        assert(p.push(entries.last()) =~= entries);
    }
}

/// Closing the same window twice is the same as closing it once.
pub proof fn lemma_close_idempotent<W>(entries: Seq<(u64, W)>, id: u64)
    ensures
        without_window(without_window(entries, id), id) == without_window(entries, id),
{
    lemma_close_removes_exactly(entries, id);
    lemma_close_absent(without_window(entries, id), id);
}


/// Closing works window by window and keeps the order: closing in a list
/// made of two parts is closing in each part and joining the results, and
/// a single window stays exactly when its id is not the closed one.
pub proof fn lemma_close_keeps_order<W>(s: Seq<(u64, W)>, t: Seq<(u64, W)>, e: (u64, W), id: u64)
    ensures
        without_window(s + t, id) == without_window(s, id) + without_window(t, id),
        without_window(seq![e], id) == (if e.0 == id {
            Seq::<(u64, W)>::empty()
        } else {
            seq![e]
        }),
{
    let p = |x: (u64, W)| x.0 != id;
    Seq::filter_distributes_over_add(s, t, p);
    reveal_with_fuel(Seq::filter, 2);
    assert(seq![e].drop_last() =~= Seq::<(u64, W)>::empty());
    if e.0 != id {
        assert(Seq::<(u64, W)>::empty().push(e) =~= seq![e]);
    }
}

} // verus!
