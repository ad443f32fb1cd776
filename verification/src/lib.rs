//! A handle-based registry for rectangular "panes" mounted inside one
//! container element, together with a deduplicating loader for externally
//! defined UI classes.
//!
//! The crate verifies the core of the system: pane storage with monotonically
//! unique handles, the coordinate transform from logical to rendered
//! rectangles, and the per-source state machine of the asynchronous class
//! loader.  Everything that touches the document itself (element creation,
//! style injection, script fetching, class instantiation) is left to a thin
//! rendering shell that drives this core, performs the actions it decides
//! on, and reports their outcomes back as plain values.

mod classes;
mod error;
mod kvtable;
mod laws;
mod pane;
mod rect;
mod state;
mod style;

pub use classes::{begin_load_spec, load_decision, names_view, register_all, register_one};
pub use classes::{JsClass, JsClassHandle, LoadAction, SrcRec};
pub use error::DivError;
pub use pane::{DivHandle, PaneRec};
pub use rect::{rect_spec, scale_spec, RenderRect, ZOOM_UNIT};
pub use laws::{lemma_new_pane_handle_fresh, lemma_registration_exact, lemma_remove_retires,
    lemma_retired_after_new, lemma_retired_after_remove, lemma_retired_after_update,
    lemma_retired_stays, lemma_single_fetch, lemma_unissued_class_handle, lemma_zoom_round_trip,
    retired};
pub use state::{fresh_model, model_inv, pane_rect, same_state, size_view, with_new_pane};
pub use state::{DivState, StateModel};
pub use state::{fail_load, finish_load, from_js_class, get_class, init, init_ex, init_to,
    is_initialized, load_js_classes, move_pane, new, new_styled, next_class_handle,
    next_pane_handle, pane_style, pending_names, register_class,
    remove_pane, rendered_rect, resize_pane, resolve_names, set_zoom, source_pending};
pub use style::{css_items, join_spaced};
