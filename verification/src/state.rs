//! The injectable state object that every operation of the library works on,
//! and its mathematical model.
//!
//! There is no hidden process-wide variable: the caller owns one `DivState`,
//! threads it through every call, and is responsible for keeping it unique
//! per mount (the double-initialization check enforces one mount per state
//! object at run time).

use vstd::prelude::*;
use vstd::string::*;
use crate::classes::{begin_load_spec, load_decision, names_view, register_all, register_one};
use crate::classes::{JsClass, JsClassHandle, JsClassStorage, LoadAction, SrcRec};
use crate::error::DivError;
use crate::pane::{DivHandle, PaneRec, PaneRecord, PaneStorage};
use crate::rect::{render_rect, rect_spec, RenderRect, ZOOM_UNIT};
use crate::style::{css_items, join_classes, join_css, join_spaced};

verus! {

/// The mathematical image of an initialized state: the container geometry
/// and the contents of the pane table and the class registry.
pub ghost struct StateModel {
    /// Global offset added to every pane's scaled coordinates.
    pub pos: (int, int),
    /// Optional clip bound of the container; `None` means unbounded.
    pub size: Option<(int, int)>,
    /// Zoom factors in thousandths.
    pub zoom: (int, int),
    /// The live panes, by handle.
    pub panes: Map<u64, PaneRec>,
    /// The pane handle the next creation will return.
    pub pane_next: u64,
    /// The completed classes, name to handle.
    pub loaded: Map<Seq<char>, u64>,
    /// The class handle the next registration will issue.
    pub class_next: u64,
    /// The per-source load state.
    pub sources: Map<Seq<char>, SrcRec>,
}

/// The container geometry and the two storages.
pub(crate) struct GlobalState {
    pub(crate) panes: PaneStorage,
    pub(crate) pos: (i32, i32),
    pub(crate) size: Option<(u32, u32)>,
    pub(crate) zoom: (u32, u32),
    pub(crate) classes: JsClassStorage,
}

/// The state object the caller owns.  All library operations take it
/// explicitly; they fail with `NotInitialized` until an initialization call
/// has succeeded on it.
pub struct DivState {
    pub(crate) initialized: bool,
    pub(crate) st: GlobalState,
}

/// The clip bound as mathematical integers.
pub open spec fn size_view(size: Option<(u32, u32)>) -> Option<(int, int)> {
    match size {
        Some(s) => Some((s.0 as int, s.1 as int)),
        None => None,
    }
}

impl DivState {
    /// Whether initialization has succeeded on this state.
    pub closed spec fn is_init(&self) -> bool {
        self.initialized
    }

    /// The model of the state's contents.
    pub closed spec fn model(&self) -> StateModel {
        StateModel {
            pos: (self.st.pos.0 as int, self.st.pos.1 as int),
            size: size_view(self.st.size),
            zoom: (self.st.zoom.0 as int, self.st.zoom.1 as int),
            panes: self.st.panes.pane_map(),
            pane_next: self.st.panes.next_handle(),
            loaded: self.st.classes.loaded_map(),
            class_next: self.st.classes.next_class(),
            sources: self.st.classes.src_map(),
        }
    }

    /// Well-formedness of the two storages.
    pub closed spec fn wf(&self) -> bool {
        self.st.panes.wf() && self.st.classes.wf()
    }
}

impl Default for DivState {
    /// A fresh, uninitialized state.
    fn default() -> (r: Self)
        ensures
            r.wf(),
            !r.is_init(),
    {
        DivState {
            initialized: false,
            st: GlobalState {
                panes: PaneStorage::empty(),
                pos: (0, 0),
                size: None,
                zoom: (ZOOM_UNIT, ZOOM_UNIT),
                classes: JsClassStorage::empty(),
            },
        }
    }
}

/// The model a successful initialization installs: identity zoom and empty
/// storages.
pub open spec fn fresh_model(pos: (int, int), size: Option<(int, int)>) -> StateModel {
    StateModel {
        pos,
        size,
        zoom: (ZOOM_UNIT as int, ZOOM_UNIT as int),
        panes: Map::empty(),
        pane_next: 0,
        loaded: Map::empty(),
        class_next: 0,
        sources: Map::empty(),
    }
}

/// The model after a pane creation: the record is stored under the next
/// handle and the next handle moves on.  Handles are never reused.
pub open spec fn with_new_pane(
    m: StateModel,
    x: int,
    y: int,
    w: int,
    h: int,
    classes: Seq<char>,
    css: Seq<char>,
) -> StateModel {
    StateModel {
        panes: m.panes.insert(m.pane_next, PaneRec { x, y, w, h, classes, css }),
        pane_next: (m.pane_next + 1) as u64,
        ..m
    }
}

/// The rendered rectangle of a live pane, under the state's offset and zoom.
pub open spec fn pane_rect(m: StateModel, h: u64) -> (int, int, int, int) {
    rect_spec(m.panes[h].x, m.panes[h].y, m.panes[h].w, m.panes[h].h, m.pos, m.zoom)
}

/// Two states that agree observably: same initialization flag, same model.
pub open spec fn same_state(a: DivState, b: DivState) -> bool {
    a.is_init() == b.is_init() && a.model() == b.model()
}

/// The model-level bounds of the two handle allocators: every live pane
/// handle and every issued class handle lies below its counter.  Handles
/// are issued at the counter, so nothing issued earlier can collide with a
/// fresh one.
pub open spec fn model_inv(m: StateModel) -> bool {
    &&& forall|k: u64| #[trigger] m.panes.contains_key(k) ==> k < m.pane_next
    &&& forall|n: Seq<char>| #[trigger] m.loaded.contains_key(n) ==> m.loaded[n] < m.class_next
}

impl DivState {
    /// A well-formed state's model satisfies the allocator bounds.
    pub proof fn lemma_model_inv(&self)
        requires
            self.wf(),
        ensures
            model_inv(self.model()),
    {
        self.st.panes.lemma_bounded();
        self.st.classes.lemma_bounded();
    }
}

/// Mounts the pane container on the document body.  `body_found` reports
/// whether the caller's document has a body to mount to.
pub fn init(s: &mut DivState, body_found: bool) -> (r: Result<(), DivError>)
    requires
        old(s).wf(),
    ensures
        final(s).wf(),
        match r {
            Ok(()) => body_found && !old(s).is_init() && final(s).is_init() && final(s).model()
                == fresh_model((0, 0), None),
            Err(DivError::AlreadyInitialized) => body_found && old(s).is_init() && same_state(
                *old(s),
                *final(s),
            ),
            Err(DivError::MissingBody) => !body_found && same_state(*old(s), *final(s)),
            _ => false,
        },
{
    init_ex(s, None, body_found, (0, 0), None)
}

/// Mounts the pane container on the element with the given id.
/// `root_found` reports whether the caller's document has such an element.
pub fn init_to(s: &mut DivState, id: &str, root_found: bool) -> (r: Result<(), DivError>)
    requires
        old(s).wf(),
    ensures
        final(s).wf(),
        match r {
            Ok(()) => root_found && !old(s).is_init() && final(s).is_init() && final(s).model()
                == fresh_model((0, 0), None),
            Err(DivError::AlreadyInitialized) => root_found && old(s).is_init() && same_state(
                *old(s),
                *final(s),
            ),
            Err(DivError::MissingRoot(missing)) => !root_found && missing@ == id@ && same_state(
                *old(s),
                *final(s),
            ),
            _ => false,
        },
{
    init_ex(s, Some(id), root_found, (0, 0), None)
}

/// Extended initialization.  Mounts the pane container on the element with
/// the given id, or on the document body when no id is given; `root_found`
/// reports whether the caller's document lookup succeeded.  The offset is
/// applied to every pane's rendered position; the optional size restricts
/// the area in which panes are visible (clipping itself is the renderer's
/// business).  On success the state starts with identity zoom and no panes
/// or classes.
pub fn init_ex(
    s: &mut DivState,
    id: Option<&str>,
    root_found: bool,
    pos: (i32, i32),
    size: Option<(u32, u32)>,
) -> (r: Result<(), DivError>)
    requires
        old(s).wf(),
    ensures
        final(s).wf(),
        match r {
            Ok(()) => root_found && !old(s).is_init() && final(s).is_init() && final(s).model()
                == fresh_model((pos.0 as int, pos.1 as int), size_view(size)),
            Err(DivError::AlreadyInitialized) => root_found && old(s).is_init() && same_state(
                *old(s),
                *final(s),
            ),
            Err(DivError::MissingRoot(missing)) => !root_found && (match id {
                Some(i) => missing@ == i@,
                None => false,
            }) && same_state(*old(s), *final(s)),
            Err(DivError::MissingBody) => !root_found && id is None && same_state(
                *old(s),
                *final(s),
            ),
            _ => false,
        },
{
    if !root_found {
        match id {
            Some(i) => Err(DivError::MissingRoot(String::from_str(i))),
            None => Err(DivError::MissingBody),
        }
    } else if s.initialized {
        Err(DivError::AlreadyInitialized)
    } else {
        s.st = GlobalState {
            panes: PaneStorage::empty(),
            pos,
            size,
            zoom: (ZOOM_UNIT, ZOOM_UNIT),
            classes: JsClassStorage::empty(),
        };
        s.initialized = true;
        Ok(())
    }
}

/// Whether initialization has succeeded on this state.
pub fn is_initialized(s: &DivState) -> (r: bool)
    ensures
        r == s.is_init(),
{
    s.initialized
}

/// Creates a new pane with the given logical rectangle and HTML content and
/// returns its fresh handle.  The HTML is the renderer's payload and is not
/// recorded here.
#[allow(unused_variables)]
pub fn new(s: &mut DivState, x: i32, y: i32, w: u32, h: u32, html: &str) -> (r: Result<
    DivHandle,
    DivError,
>)
    requires
        old(s).wf(),
        old(s).is_init() ==> old(s).model().pane_next < u64::MAX,
    ensures
        final(s).wf(),
        final(s).is_init() == old(s).is_init(),
        match r {
            Ok(hd) => old(s).is_init() && hd.0 == old(s).model().pane_next && final(s).model()
                == with_new_pane(
                old(s).model(),
                x as int,
                y as int,
                w as int,
                h as int,
                Seq::empty(),
                Seq::empty(),
            ),
            Err(DivError::NotInitialized) => !old(s).is_init() && same_state(*old(s), *final(s)),
            _ => false,
        },
{
    if !s.initialized {
        return Err(DivError::NotInitialized);
    }
    let rec = PaneRecord { x, y, w, h, classes: String::new(), css: String::new() };
    let hd = s.st.panes.insert(rec);
    Ok(DivHandle(hd))
}

/// Creates a new pane styled with CSS classes and inline CSS property
/// pairs, both of which are recorded with the pane.
#[allow(unused_variables)]
pub fn new_styled(
    s: &mut DivState,
    x: i32,
    y: i32,
    w: u32,
    h: u32,
    html: &str,
    classes: &Vec<String>,
    css: &Vec<(String, String)>,
) -> (r: Result<DivHandle, DivError>)
    requires
        old(s).wf(),
        old(s).is_init() ==> old(s).model().pane_next < u64::MAX,
    ensures
        final(s).wf(),
        final(s).is_init() == old(s).is_init(),
        match r {
            Ok(hd) => old(s).is_init() && hd.0 == old(s).model().pane_next && final(s).model()
                == with_new_pane(
                old(s).model(),
                x as int,
                y as int,
                w as int,
                h as int,
                join_spaced(names_view(classes@)),
                join_spaced(css_items(css@)),
            ),
            Err(DivError::NotInitialized) => !old(s).is_init() && same_state(*old(s), *final(s)),
            _ => false,
        },
{
    if !s.initialized {
        return Err(DivError::NotInitialized);
    }
    let classes_str = join_classes(classes);
    let css_str = join_css(css);
    let rec = PaneRecord { x, y, w, h, classes: classes_str, css: css_str };
    let hd = s.st.panes.insert(rec);
    Ok(DivHandle(hd))
}

/// Moves a live pane to a new logical position; its rendered rectangle
/// follows on the next query.
pub fn move_pane(s: &mut DivState, hd: DivHandle, x: i32, y: i32) -> (r: Result<(), DivError>)
    requires
        old(s).wf(),
    ensures
        final(s).wf(),
        final(s).is_init() == old(s).is_init(),
        match r {
            Ok(()) => old(s).is_init() && old(s).model().panes.contains_key(hd.0) && final(s).model() == (StateModel {
                panes: old(s).model().panes.insert(
                    hd.0,
                    PaneRec { x: x as int, y: y as int, ..old(s).model().panes[hd.0] },
                ),
                ..old(s).model()
            }),
            Err(DivError::NotInitialized) => !old(s).is_init() && same_state(*old(s), *final(s)),
            Err(DivError::UnknownHandle) => old(s).is_init() && !old(s).model().panes.contains_key(
                hd.0,
            ) && same_state(*old(s), *final(s)),
            _ => false,
        },
{
    if !s.initialized {
        return Err(DivError::NotInitialized);
    }
    if s.st.panes.set_pos(hd.0, x, y) {
        Ok(())
    } else {
        Err(DivError::UnknownHandle)
    }
}

/// Resizes a live pane's logical rectangle.
pub fn resize_pane(s: &mut DivState, hd: DivHandle, w: u32, h: u32) -> (r: Result<(), DivError>)
    requires
        old(s).wf(),
    ensures
        final(s).wf(),
        final(s).is_init() == old(s).is_init(),
        match r {
            Ok(()) => old(s).is_init() && old(s).model().panes.contains_key(hd.0) && final(s).model() == (StateModel {
                panes: old(s).model().panes.insert(
                    hd.0,
                    PaneRec { w: w as int, h: h as int, ..old(s).model().panes[hd.0] },
                ),
                ..old(s).model()
            }),
            Err(DivError::NotInitialized) => !old(s).is_init() && same_state(*old(s), *final(s)),
            Err(DivError::UnknownHandle) => old(s).is_init() && !old(s).model().panes.contains_key(
                hd.0,
            ) && same_state(*old(s), *final(s)),
            _ => false,
        },
{
    if !s.initialized {
        return Err(DivError::NotInitialized);
    }
    if s.st.panes.set_size(hd.0, w, h) {
        Ok(())
    } else {
        Err(DivError::UnknownHandle)
    }
}

/// Removes a pane.  Removal is deliberately not idempotent: a second
/// removal of the same handle fails with `UnknownHandle`, so double-free
/// style mistakes surface as errors.
pub fn remove_pane(s: &mut DivState, hd: DivHandle) -> (r: Result<(), DivError>)
    requires
        old(s).wf(),
    ensures
        final(s).wf(),
        final(s).is_init() == old(s).is_init(),
        match r {
            Ok(()) => old(s).is_init() && old(s).model().panes.contains_key(hd.0) && final(s).model() == (StateModel { panes: old(s).model().panes.remove(hd.0), ..old(s).model() }),
            Err(DivError::NotInitialized) => !old(s).is_init() && same_state(*old(s), *final(s)),
            Err(DivError::UnknownHandle) => old(s).is_init() && !old(s).model().panes.contains_key(
                hd.0,
            ) && same_state(*old(s), *final(s)),
            _ => false,
        },
{
    if !s.initialized {
        return Err(DivError::NotInitialized);
    }
    if s.st.panes.remove(hd.0) {
        Ok(())
    } else {
        Err(DivError::UnknownHandle)
    }
}

/// Sets the global zoom factors, in thousandths (`ZOOM_UNIT` is identity).
/// Every live pane's rendered rectangle is recomputed from its unchanged
/// logical rectangle, so repeated zoom changes never accumulate drift.
pub fn set_zoom(s: &mut DivState, zx: u32, zy: u32) -> (r: Result<(), DivError>)
    requires
        old(s).wf(),
    ensures
        final(s).wf(),
        final(s).is_init() == old(s).is_init(),
        match r {
            Ok(()) => old(s).is_init() && final(s).model() == (StateModel {
                zoom: (zx as int, zy as int),
                ..old(s).model()
            }),
            Err(DivError::NotInitialized) => !old(s).is_init() && same_state(*old(s), *final(s)),
            _ => false,
        },
{
    if !s.initialized {
        return Err(DivError::NotInitialized);
    }
    s.st.zoom = (zx, zy);
    Ok(())
}

/// The rectangle the renderer must draw for a live pane: its logical
/// rectangle scaled by the zoom factors, its position then shifted by the
/// global offset.
pub fn rendered_rect(s: &DivState, hd: DivHandle) -> (r: Result<RenderRect, DivError>)
    requires
        s.wf(),
    ensures
        match r {
            Ok(rect) => s.is_init() && s.model().panes.contains_key(hd.0) && (
            rect.x as int,
            rect.y as int,
            rect.w as int,
            rect.h as int,
            ) == pane_rect(s.model(), hd.0),
            Err(DivError::NotInitialized) => !s.is_init(),
            Err(DivError::UnknownHandle) => s.is_init() && !s.model().panes.contains_key(hd.0),
            _ => false,
        },
{
    if !s.initialized {
        return Err(DivError::NotInitialized);
    }
    match s.st.panes.get(hd.0) {
        Some(rec) => Ok(render_rect(rec.x, rec.y, rec.w, rec.h, s.st.pos, s.st.zoom)),
        None => Err(DivError::UnknownHandle),
    }
}

/// The class-list string and inline-style string recorded for a live pane,
/// as the renderer must apply them.
pub fn pane_style(s: &DivState, hd: DivHandle) -> (r: Result<(String, String), DivError>)
    requires
        s.wf(),
    ensures
        match r {
            Ok(style) => s.is_init() && s.model().panes.contains_key(hd.0) && style.0@ == s
                .model().panes[hd.0].classes && style.1@ == s.model().panes[hd.0].css,
            Err(DivError::NotInitialized) => !s.is_init(),
            Err(DivError::UnknownHandle) => s.is_init() && !s.model().panes.contains_key(hd.0),
            _ => false,
        },
{
    if !s.initialized {
        return Err(DivError::NotInitialized);
    }
    match s.st.panes.get(hd.0) {
        Some(rec) => Ok((rec.classes.clone(), rec.css.clone())),
        None => Err(DivError::UnknownHandle),
    }
}

/// The handle the next pane creation will return.  Creation needs room in
/// the handle space, so a caller can test this against `u64::MAX` first.
pub fn next_pane_handle(s: &DivState) -> (r: u64)
    ensures
        r == s.model().pane_next,
{
    s.st.panes.next()
}

/// The handle the next class registration will issue.
pub fn next_class_handle(s: &DivState) -> (r: u64)
    ensures
        r == s.model().class_next,
{
    s.st.classes.next()
}

/// Records a request to load the named classes from a module source and
/// decides what the requester must do: fetch the source, await the fetch an
/// earlier request started, or resolve immediately against the loaded
/// classes.  A pending or loaded source is never fetched twice.
pub fn load_js_classes(s: &mut DivState, classes: &Vec<String>, src: &str) -> (r: Result<
    LoadAction,
    DivError,
>)
    requires
        old(s).wf(),
    ensures
        final(s).wf(),
        final(s).is_init() == old(s).is_init(),
        match r {
            Ok(act) => old(s).is_init() && act == load_decision(old(s).model().sources, src@)
                && final(s).model() == (StateModel {
                sources: begin_load_spec(old(s).model().sources, names_view(classes@), src@),
                ..old(s).model()
            }),
            Err(DivError::NotInitialized) => !old(s).is_init() && same_state(*old(s), *final(s)),
            _ => false,
        },
{
    if !s.initialized {
        return Err(DivError::NotInitialized);
    }
    let src_owned = String::from_str(src);
    Ok(s.st.classes.begin_load(classes, &src_owned))
}

/// Whether a fetch for the given source is currently in flight.
pub fn source_pending(s: &DivState, src: &str) -> (r: bool)
    requires
        s.wf(),
    ensures
        r == (s.is_init() && s.model().sources.contains_key(src@) && s.model().sources[src@]
            is Pending),
{
    if !s.initialized {
        return false;
    }
    let src_owned = String::from_str(src);
    s.st.classes.pending_of(&src_owned).is_some()
}

/// The names requested so far from a source whose fetch is in flight.
pub fn pending_names(s: &DivState, src: &str) -> (r: Option<Vec<String>>)
    requires
        s.wf(),
    ensures
        match r {
            Some(v) => s.is_init() && s.model().sources.contains_key(src@) && s.model().sources[
                src@] is Pending && names_view(v@) == s.model().sources[src@]->Pending_names,
            None => !(s.is_init() && s.model().sources.contains_key(src@) && s.model().sources[
                src@] is Pending),
        },
{
    if !s.initialized {
        return None;
    }
    let src_owned = String::from_str(src);
    s.st.classes.pending_of(&src_owned)
}

/// Completes a pending fetch.  `exported` names the requested classes the
/// loaded module actually exports; each such name is registered, in request
/// order, and the source becomes loaded for good.
pub fn finish_load(s: &mut DivState, src: &str, exported: &Vec<String>)
    requires
        old(s).wf(),
        old(s).is_init(),
        old(s).model().sources.contains_key(src@),
        old(s).model().sources[src@] is Pending,
        old(s).model().class_next + old(s).model().sources[src@]->Pending_names.len()
            <= u64::MAX,
    ensures
        final(s).wf(),
        final(s).is_init(),
        final(s).model() == (StateModel {
            loaded: register_all(
                old(s).model().loaded,
                old(s).model().class_next,
                old(s).model().sources[src@]->Pending_names,
                names_view(exported@),
            ).0,
            class_next: register_all(
                old(s).model().loaded,
                old(s).model().class_next,
                old(s).model().sources[src@]->Pending_names,
                names_view(exported@),
            ).1,
            sources: old(s).model().sources.insert(src@, SrcRec::Done),
            ..old(s).model()
        }),
{
    let src_owned = String::from_str(src);
    s.st.classes.finish_load(&src_owned, exported);
}

/// Abandons a pending fetch after the module failed to load, so that a
/// fresh load of the same source may be tried again.
pub fn fail_load(s: &mut DivState, src: &str)
    requires
        old(s).wf(),
        old(s).is_init(),
        old(s).model().sources.contains_key(src@),
        old(s).model().sources[src@] is Pending,
    ensures
        final(s).wf(),
        final(s).is_init(),
        final(s).model() == (StateModel {
            sources: old(s).model().sources.remove(src@),
            ..old(s).model()
        }),
{
    let src_owned = String::from_str(src);
    s.st.classes.fail_load(&src_owned);
}

/// Looks every requested name up among the loaded classes, in order; the
/// first name without a loaded class fails the lookup with that name.
pub fn resolve_names(s: &DivState, names: &Vec<String>) -> (r: Result<Vec<JsClassHandle>, DivError>)
    requires
        s.wf(),
    ensures
        match r {
            Ok(hs) => {
                &&& s.is_init()
                &&& hs@.len() == names@.len()
                &&& forall|j: int|
                    0 <= j < names@.len() ==> s.model().loaded.contains_key((#[trigger] names@[j])@)
                &&& forall|j: int|
                    0 <= j < names@.len() ==> (#[trigger] hs@[j]).0 == s.model().loaded[names@[j]@]
            },
            Err(DivError::NotInitialized) => !s.is_init(),
            Err(DivError::ExportNotFound(missing)) => s.is_init() && exists|j: int|
                {
                    &&& 0 <= j < names@.len()
                    &&& !s.model().loaded.contains_key((#[trigger] names@[j])@)
                    &&& forall|l: int|
                        0 <= l < j ==> s.model().loaded.contains_key((#[trigger] names@[l])@)
                    &&& missing@ == names@[j]@
                },
            _ => false,
        },
{
    if !s.initialized {
        return Err(DivError::NotInitialized);
    }
    s.st.classes.resolve(names)
}

/// The class a handle was issued for.
pub fn get_class(s: &DivState, hd: JsClassHandle) -> (r: Result<JsClass, DivError>)
    requires
        s.wf(),
    ensures
        match r {
            Ok(c) => s.is_init() && c.handle == hd && s.model().loaded.contains_key(c.name@)
                && s.model().loaded[c.name@] == hd.0,
            Err(DivError::NotInitialized) => !s.is_init(),
            Err(DivError::UnknownClassHandle) => s.is_init() && forall|n: Seq<char>|
                #[trigger] s.model().loaded.contains_key(n) ==> s.model().loaded[n] != hd.0,
            _ => false,
        },
{
    if !s.initialized {
        return Err(DivError::NotInitialized);
    }
    match s.st.classes.name_of(hd.0) {
        Some(name) => Ok(JsClass { handle: hd, name: name.clone() }),
        None => Err(DivError::UnknownClassHandle),
    }
}

/// Creates a new pane and asks for a previously loaded class to be
/// instantiated in it.  Following the creation flow, the pane is created
/// first, so a stale class handle leaves the fresh, empty pane behind and
/// reports `UnknownClassHandle`.
pub fn from_js_class(s: &mut DivState, x: i32, y: i32, w: u32, h: u32, class_handle: JsClassHandle)
    -> (r: Result<DivHandle, DivError>)
    requires
        old(s).wf(),
        old(s).is_init() ==> old(s).model().pane_next < u64::MAX,
    ensures
        final(s).wf(),
        final(s).is_init() == old(s).is_init(),
        match r {
            Ok(hd) => old(s).is_init() && hd.0 == old(s).model().pane_next && (exists|n: Seq<char>|
                #[trigger] old(s).model().loaded.contains_key(n) && old(s).model().loaded[n]
                    == class_handle.0) && final(s).model() == with_new_pane(
                old(s).model(),
                x as int,
                y as int,
                w as int,
                h as int,
                Seq::empty(),
                Seq::empty(),
            ),
            Err(DivError::NotInitialized) => !old(s).is_init() && same_state(*old(s), *final(s)),
            Err(DivError::UnknownClassHandle) => old(s).is_init() && !(exists|n: Seq<char>|
                #[trigger] old(s).model().loaded.contains_key(n) && old(s).model().loaded[n]
                    == class_handle.0) && final(s).model() == with_new_pane(
                old(s).model(),
                x as int,
                y as int,
                w as int,
                h as int,
                Seq::empty(),
                Seq::empty(),
            ),
            _ => false,
        },
{
    let ph = match new(s, x, y, w, h, "") {
        Ok(ph) => ph,
        Err(e) => {
            return Err(e);
        },
    };
    if s.st.classes.handle_known(class_handle.0) {
        Ok(ph)
    } else {
        Err(DivError::UnknownClassHandle)
    }
}

impl JsClass {
    /// The handle of a class that has already been registered, usually by
    /// the host page outside this pipeline; `None` if no class of that name
    /// has been registered.
    pub fn preregistered(s: &DivState, name: &str) -> (r: Option<JsClassHandle>)
        requires
            s.wf(),
            s.is_init(),
        ensures
            r == if s.model().loaded.contains_key(name@) {
                Some(JsClassHandle(s.model().loaded[name@]))
            } else {
                None::<JsClassHandle>
            },
    {
        let owned = String::from_str(name);
        s.st.classes.preloaded(&owned)
    }
}

/// Registers a class by name without going through a module load, as the
/// host page does for classes it defines itself, and returns the name's
/// handle; a name that already has a handle keeps it.
pub fn register_class(s: &mut DivState, name: &str) -> (r: Result<JsClassHandle, DivError>)
    requires
        old(s).wf(),
        old(s).is_init() ==> old(s).model().class_next < u64::MAX,
    ensures
        final(s).wf(),
        final(s).is_init() == old(s).is_init(),
        match r {
            Ok(hd) => old(s).is_init() && final(s).model() == (StateModel {
                loaded: register_one(old(s).model().loaded, old(s).model().class_next, name@).0,
                class_next: register_one(
                    old(s).model().loaded,
                    old(s).model().class_next,
                    name@,
                ).1,
                ..old(s).model()
            }) && final(s).model().loaded.contains_key(name@) && hd.0 == final(s).model().loaded[
                name@],
            Err(DivError::NotInitialized) => !old(s).is_init() && same_state(*old(s), *final(s)),
            _ => false,
        },
{
    if !s.initialized {
        return Err(DivError::NotInitialized);
    }
    let owned = String::from_str(name);
    Ok(JsClassHandle(s.st.classes.register(&owned)))
}


} // verus!
