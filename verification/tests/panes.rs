use div::{DivError, DivHandle, DivState, RenderRect, ZOOM_UNIT};

fn rect(x: i64, y: i64, w: u64, h: u64) -> RenderRect {
    RenderRect { x, y, w, h }
}

#[test]
fn default_state_is_uninitialized() {
    let s = DivState::default();
    assert!(!div::is_initialized(&s));
}

#[test]
fn operations_before_init_fail() {
    let mut s = DivState::default();
    assert_eq!(div::new(&mut s, 0, 0, 10, 10, "x"), Err(DivError::NotInitialized));
    assert_eq!(div::set_zoom(&mut s, ZOOM_UNIT, ZOOM_UNIT), Err(DivError::NotInitialized));
    assert_eq!(div::move_pane(&mut s, DivHandle(0), 1, 1), Err(DivError::NotInitialized));
    assert_eq!(div::remove_pane(&mut s, DivHandle(0)), Err(DivError::NotInitialized));
    assert_eq!(div::rendered_rect(&s, DivHandle(0)), Err(DivError::NotInitialized));
}

#[test]
fn init_mounts_once() {
    let mut s = DivState::default();
    assert_eq!(div::init(&mut s, true), Ok(()));
    assert!(div::is_initialized(&s));
    assert_eq!(div::init(&mut s, true), Err(DivError::AlreadyInitialized));
}

#[test]
fn init_without_body_fails() {
    let mut s = DivState::default();
    assert_eq!(div::init(&mut s, false), Err(DivError::MissingBody));
    assert!(!div::is_initialized(&s));
}

#[test]
fn init_to_missing_root_names_the_id() {
    let mut s = DivState::default();
    assert_eq!(
        div::init_to(&mut s, "my-root", false),
        Err(DivError::MissingRoot(String::from("my-root")))
    );
    assert_eq!(div::init_to(&mut s, "my-root", true), Ok(()));
}

#[test]
fn offset_and_zoom_scenario() {
    let mut s = DivState::default();
    assert_eq!(div::init_ex(&mut s, None, true, (10, 20), Some((800, 600))), Ok(()));
    let h = div::new(&mut s, 0, 0, 100, 50, "<b>hi</b>").unwrap();
    assert_eq!(div::rendered_rect(&s, h), Ok(rect(10, 20, 100, 50)));
    // zoom 2.0 in both axes: dimensions scale, the offset does not
    assert_eq!(div::set_zoom(&mut s, 2 * ZOOM_UNIT, 2 * ZOOM_UNIT), Ok(()));
    assert_eq!(div::rendered_rect(&s, h), Ok(rect(10, 20, 200, 100)));
}

#[test]
fn zoom_round_trip_restores_rects() {
    let mut s = DivState::default();
    div::init_ex(&mut s, None, true, (-5, 7), None).unwrap();
    let a = div::new(&mut s, -30, 40, 12, 34, "a").unwrap();
    let b = div::new(&mut s, 3, -4, 56, 78, "b").unwrap();
    let ra = div::rendered_rect(&s, a).unwrap();
    let rb = div::rendered_rect(&s, b).unwrap();
    div::set_zoom(&mut s, 3 * ZOOM_UNIT, ZOOM_UNIT / 2).unwrap();
    div::set_zoom(&mut s, ZOOM_UNIT, ZOOM_UNIT).unwrap();
    assert_eq!(div::rendered_rect(&s, a).unwrap(), ra);
    assert_eq!(div::rendered_rect(&s, b).unwrap(), rb);
}

#[test]
fn scaling_rounds_towards_negative_infinity() {
    let mut s = DivState::default();
    div::init_ex(&mut s, None, true, (0, 0), None).unwrap();
    let h = div::new(&mut s, -1, 1, 3, 3, "").unwrap();
    div::set_zoom(&mut s, 500, 500).unwrap();
    // -0.5 rounds down to -1, 0.5 rounds down to 0, 1.5 rounds down to 1
    assert_eq!(div::rendered_rect(&s, h), Ok(rect(-1, 0, 1, 1)));
}

#[test]
fn handles_are_unique_and_never_reused() {
    let mut s = DivState::default();
    div::init(&mut s, true).unwrap();
    let mut handles = Vec::new();
    for i in 0..4 {
        handles.push(div::new(&mut s, i, i, 1, 1, "").unwrap());
    }
    div::remove_pane(&mut s, handles[1]).unwrap();
    for i in 0..3 {
        handles.push(div::new(&mut s, i, i, 2, 2, "").unwrap());
    }
    for i in 0..handles.len() {
        for j in 0..i {
            assert_ne!(handles[i], handles[j]);
        }
    }
}

#[test]
fn removed_handle_stays_unknown() {
    let mut s = DivState::default();
    div::init(&mut s, true).unwrap();
    let h = div::new(&mut s, 0, 0, 10, 10, "").unwrap();
    let other = div::new(&mut s, 5, 5, 10, 10, "").unwrap();
    assert_eq!(div::remove_pane(&mut s, h), Ok(()));
    assert_eq!(div::remove_pane(&mut s, h), Err(DivError::UnknownHandle));
    assert_eq!(div::move_pane(&mut s, h, 1, 1), Err(DivError::UnknownHandle));
    assert_eq!(div::resize_pane(&mut s, h, 2, 2), Err(DivError::UnknownHandle));
    assert_eq!(div::rendered_rect(&s, h), Err(DivError::UnknownHandle));
    assert_eq!(div::pane_style(&s, h), Err(DivError::UnknownHandle));
    // a later creation does not revive it
    let _ = div::new(&mut s, 9, 9, 1, 1, "").unwrap();
    assert_eq!(div::move_pane(&mut s, h, 1, 1), Err(DivError::UnknownHandle));
    // the untouched pane is still live
    assert_eq!(div::move_pane(&mut s, other, 6, 6), Ok(()));
}

#[test]
fn move_and_resize_update_the_rect() {
    let mut s = DivState::default();
    div::init_ex(&mut s, None, true, (100, 200), None).unwrap();
    let h = div::new(&mut s, 1, 2, 30, 40, "").unwrap();
    assert_eq!(div::rendered_rect(&s, h), Ok(rect(101, 202, 30, 40)));
    div::move_pane(&mut s, h, -1, -2).unwrap();
    assert_eq!(div::rendered_rect(&s, h), Ok(rect(99, 198, 30, 40)));
    div::resize_pane(&mut s, h, 7, 8).unwrap();
    assert_eq!(div::rendered_rect(&s, h), Ok(rect(99, 198, 7, 8)));
}

#[test]
fn zero_sized_and_negative_panes_are_permitted() {
    let mut s = DivState::default();
    div::init(&mut s, true).unwrap();
    let h = div::new(&mut s, -10, -20, 0, 0, "").unwrap();
    assert_eq!(div::rendered_rect(&s, h), Ok(rect(-10, -20, 0, 0)));
}

#[test]
fn styled_pane_records_class_and_style_strings() {
    let mut s = DivState::default();
    div::init(&mut s, true).unwrap();
    let classes = vec![String::from("my-class"), String::from("other")];
    let css = vec![
        (String::from("color"), String::from("red")),
        (String::from("width"), String::from("10px")),
    ];
    let h = div::new_styled(&mut s, 0, 0, 1000, 1000, "Some text", &classes, &css).unwrap();
    let (class_str, css_str) = div::pane_style(&s, h).unwrap();
    assert_eq!(class_str, "my-class other");
    assert_eq!(css_str, "color: red; width: 10px;");
}

#[test]
fn unstyled_pane_has_empty_style_strings() {
    let mut s = DivState::default();
    div::init(&mut s, true).unwrap();
    let empty_classes: Vec<String> = Vec::new();
    let empty_css: Vec<(String, String)> = Vec::new();
    let h = div::new_styled(&mut s, 0, 0, 10, 10, "x", &empty_classes, &empty_css).unwrap();
    assert_eq!(div::pane_style(&s, h), Ok((String::new(), String::new())));
    let plain = div::new(&mut s, 0, 0, 10, 10, "x").unwrap();
    assert_eq!(div::pane_style(&s, plain), Ok((String::new(), String::new())));
}
