//! The global guarantees of the library, stated and proved over the model.
//!
//! Each public operation's contract pins its transition on the model; the
//! proof functions here state what those transitions guarantee jointly: pane
//! handles are never reused, a removed handle stays unknown, zoom changes
//! round-trip, one source is fetched at most once, and class registration
//! adds exactly the requested exported names.

use vstd::prelude::*;
use crate::classes::{begin_load_spec, load_decision, register_all, LoadAction, SrcRec};
use crate::state::{model_inv, pane_rect, with_new_pane, StateModel};

verus! {

/// Law: the handle a pane creation returns is fresh.  A creation on model
/// `m` returns `m.pane_next`, which no live pane holds and which differs
/// from every handle issued earlier (every one of those lies below
/// `m.pane_next`, removed or not); afterwards the bounds hold again and the
/// counter has strictly grown, so no later creation can return it either.
pub proof fn lemma_new_pane_handle_fresh(
    m: StateModel,
    x: int,
    y: int,
    w: int,
    h: int,
    classes: Seq<char>,
    css: Seq<char>,
)
    requires
        model_inv(m),
        m.pane_next < u64::MAX,
    ensures
        !m.panes.contains_key(m.pane_next),
        model_inv(with_new_pane(m, x, y, w, h, classes, css)),
        with_new_pane(m, x, y, w, h, classes, css).pane_next > m.pane_next,
{
}

/// A handle that was issued but no longer names a pane.
pub open spec fn retired(m: StateModel, h: u64) -> bool {
    h < m.pane_next && !m.panes.contains_key(h)
}

/// Law: removing a pane retires its handle.
pub proof fn lemma_remove_retires(m: StateModel, h: u64)
    requires
        model_inv(m),
        m.panes.contains_key(h),
    ensures
        retired(StateModel { panes: m.panes.remove(h), ..m }, h),
{
}

/// Law: a retired handle stays retired under any step that never shrinks
/// the allocation counter and only adds panes at fresh handles.  Every
/// operation of the library satisfies the two step conditions, so once a
/// handle is removed, every later operation on it keeps failing with
/// `UnknownHandle` (the per-operation contracts make that failure explicit).
pub proof fn lemma_retired_stays(m0: StateModel, m1: StateModel, h: u64)
    requires
        retired(m0, h),
        m1.pane_next >= m0.pane_next,
        forall|k: u64| #[trigger] m1.panes.contains_key(k) ==> m0.panes.contains_key(k) || k
            >= m0.pane_next,
    ensures
        retired(m1, h),
{
}

/// A pane creation leaves every retired handle retired.
pub proof fn lemma_retired_after_new(
    m: StateModel,
    h: u64,
    x: int,
    y: int,
    w: int,
    hh: int,
    classes: Seq<char>,
    css: Seq<char>,
)
    requires
        retired(m, h),
        model_inv(m),
        m.pane_next < u64::MAX,
    ensures
        retired(with_new_pane(m, x, y, w, hh, classes, css), h),
{
}

/// A move or resize of a live pane leaves every retired handle retired.
pub proof fn lemma_retired_after_update(m: StateModel, h: u64, hd: u64, rec: crate::pane::PaneRec)
    requires
        retired(m, h),
        m.panes.contains_key(hd),
    ensures
        retired(StateModel { panes: m.panes.insert(hd, rec), ..m }, h),
{
}

/// A removal leaves every retired handle retired.
pub proof fn lemma_retired_after_remove(m: StateModel, h: u64, hd: u64)
    requires
        retired(m, h),
    ensures
        retired(StateModel { panes: m.panes.remove(hd), ..m }, h),
{
}

/// Law: zoom changes round-trip.  Setting the zoom and then setting it back
/// to what it was restores the whole model, and with it every live pane's
/// rendered rectangle, because the stored logical rectangles never change
/// with the zoom.
pub proof fn lemma_zoom_round_trip(m0: StateModel, m1: StateModel, m2: StateModel, zx: int, zy: int)
    requires
        m1 == (StateModel { zoom: (zx, zy), ..m0 }),
        m2 == (StateModel { zoom: m0.zoom, ..m1 }),
    ensures
        m2 == m0,
        forall|h: u64| #[trigger] m0.panes.contains_key(h) ==> pane_rect(m2, h) == pane_rect(
            m0,
            h,
        ),
{
}

/// Law: one source is fetched at most once.  The request that is told to
/// start the fetch leaves the source pending, so any request that follows
/// it, and any request after that, is told to await the pending fetch, not
/// to start another; only the completed fetch turns the source ready.
pub proof fn lemma_single_fetch(
    m: StateModel,
    names1: Seq<Seq<char>>,
    names2: Seq<Seq<char>>,
    src: Seq<char>,
)
    requires
        load_decision(m.sources, src) == LoadAction::StartFetch,
    ensures
        ({
            let s1 = begin_load_spec(m.sources, names1, src);
            let s2 = begin_load_spec(s1, names2, src);
            &&& load_decision(s1, src) == LoadAction::AwaitPending
            &&& load_decision(s2, src) == LoadAction::AwaitPending
            &&& s2[src] == SrcRec::Pending { names: names1 + names2 }
            &&& load_decision(s1.insert(src, SrcRec::Done), src) == LoadAction::Ready
        }),
{
}

/// Law: a class handle at or past the allocation counter was never issued,
/// so no loaded class carries it; dereferencing it fails with
/// `UnknownClassHandle` by the lookup contracts.
pub proof fn lemma_unissued_class_handle(m: StateModel, h: u64)
    requires
        model_inv(m),
        h >= m.class_next,
    ensures
        forall|n: Seq<char>| #[trigger] m.loaded.contains_key(n) ==> m.loaded[n] != h,
{
}

/// Law: completing a fetch registers exactly the requested names the module
/// exports.  A name both pending and exported has a class afterwards; a
/// name that already had a class keeps its handle unchanged; a name that
/// neither had a class nor was pending still has none.  With the lookup
/// contract, a name therefore has no handle before a load of it completes
/// and has one immediately after.
pub proof fn lemma_registration_exact(
    loaded: Map<Seq<char>, u64>,
    next: u64,
    pending: Seq<Seq<char>>,
    exported: Seq<Seq<char>>,
    name: Seq<char>,
)
    ensures
        pending.contains(name) && exported.contains(name) ==> register_all(
            loaded,
            next,
            pending,
            exported,
        ).0.contains_key(name),
        loaded.contains_key(name) ==> register_all(loaded, next, pending, exported).0.contains_key(
            name,
        ) && register_all(loaded, next, pending, exported).0[name] == loaded[name],
        !loaded.contains_key(name) && !pending.contains(name) ==> !register_all(
            loaded,
            next,
            pending,
            exported,
        ).0.contains_key(name),
    decreases pending.len(),
{
    if pending.len() > 0 {
        lemma_registration_exact(loaded, next, pending.drop_last(), exported, name);
        let prev = register_all(loaded, next, pending.drop_last(), exported);
        if pending.contains(name) && name != pending.last() {
            let i = choose|i: int| 0 <= i < pending.len() && pending[i] == name;
            assert(pending.drop_last()[i] == name);
            assert(pending.drop_last().contains(name));
        }
        if !pending.contains(name) {
            assert(forall|i: int|
                0 <= i < pending.drop_last().len() ==> pending.drop_last()[i] == pending[i]);
            assert(!pending.drop_last().contains(name));
            assert(pending.last() != name);
        }
    }
}

} // verus!
