use mote_shell::layout::{
    click_target, page_local_coords, route_pointer, viewport_size, ClickTarget, MousePosition,
    PointerRoute, VIEWPORT_LEFT, VIEWPORT_TOP,
};

fn scale_inset(logical: u32, scale: f64) -> u32 {
    (f64::from(logical) * scale.max(1.0)).round() as u32
}

#[test]
fn viewport_size_excludes_chrome_insets() {
    let (w, h) = viewport_size(1280, 800, VIEWPORT_LEFT, VIEWPORT_TOP);
    assert_eq!(w, 1280 - VIEWPORT_LEFT);
    assert_eq!(h, 800 - VIEWPORT_TOP);
    assert_eq!(viewport_size(0, 0, VIEWPORT_LEFT, VIEWPORT_TOP), (1, 1));
}

#[test]
fn r1_zero_size_guard_prevents_zero_dim_viewport() {
    assert_eq!(viewport_size(0, 0, VIEWPORT_LEFT, VIEWPORT_TOP), (1, 1));
    let (vw, _) = viewport_size(VIEWPORT_LEFT, 800, VIEWPORT_LEFT, VIEWPORT_TOP);
    assert_eq!(vw, 1, "saturating_sub + clamp-to-1 must produce 1");
}

#[test]
fn hit_test_maps_page_local_and_rejects_chrome() {
    let pos = page_local_coords(400, 300, 1280, 800, VIEWPORT_LEFT, VIEWPORT_TOP)
        .expect("inside viewport");
    assert_eq!(pos.x, 400 - VIEWPORT_LEFT as i32);
    assert_eq!(pos.y, 300 - VIEWPORT_TOP as i32);
    assert!(page_local_coords(100, 300, 1280, 800, VIEWPORT_LEFT, VIEWPORT_TOP).is_none());
    assert!(page_local_coords(400, 10, 1280, 800, VIEWPORT_LEFT, VIEWPORT_TOP).is_none());
}

#[test]
fn hit_test_uses_scaled_insets_on_hidpi() {
    let left = scale_inset(VIEWPORT_LEFT, 1.25);
    let top = scale_inset(VIEWPORT_TOP, 1.25);
    assert!(page_local_coords(350, 300, 1600, 1000, left, top).is_none());
    assert!(page_local_coords(420, 300, 1600, 1000, left, top).is_some());
}

#[test]
fn r1_fanout_content_size_at_repro_geometry() {
    let win_w = 1859_u32;
    let win_h = 2098_u32;
    let scale = 1.25_f64;
    let left = scale_inset(VIEWPORT_LEFT, scale);
    let top = scale_inset(VIEWPORT_TOP, scale);
    let (vw, vh) = viewport_size(win_w, win_h, left, top);
    assert_eq!((win_w, win_h), (1859, 2098));
    assert_eq!(left, 395, "VIEWPORT_LEFT={VIEWPORT_LEFT} × 1.25 = 395");
    assert_eq!(top, 55, "VIEWPORT_TOP={VIEWPORT_TOP} × 1.25 = 55");
    assert_eq!(
        vw,
        1859 - 395,
        "content width must exclude scaled left inset"
    );
    assert_eq!(
        vh,
        2098 - 55,
        "content height must exclude scaled top inset"
    );
}

#[test]
fn overlay_capturing_inside_viewport_routes_to_chrome() {
    assert_eq!(
        click_target(true, Some(MousePosition { x: 100, y: 100 })),
        ClickTarget::Chrome,
        "an overlay capturing input must redirect viewport clicks to chrome"
    );
}

#[test]
fn overlay_capturing_outside_viewport_routes_to_chrome() {
    assert_eq!(
        click_target(true, None),
        ClickTarget::Chrome,
        "an overlay capturing input routes chrome-inset clicks to chrome"
    );
}

#[test]
fn no_overlay_inside_viewport_routes_to_content() {
    assert_eq!(
        click_target(false, Some(MousePosition { x: 100, y: 100 })),
        ClickTarget::ContentPage,
        "without an overlay a viewport click goes to the content page"
    );
}

#[test]
fn no_overlay_outside_viewport_routes_to_chrome() {
    assert_eq!(
        click_target(false, None),
        ClickTarget::Chrome,
        "without an overlay a chrome-inset click goes to the chrome page"
    );
}

#[test]
fn p5_zoom_delta_clamps_to_range() {
    let clamp_zoom = |current: f64, delta: f64| -> f64 { (current + delta).clamp(-2.0, 2.0) };
    assert!((clamp_zoom(0.0, 0.1) - 0.1).abs() < f64::EPSILON);
    assert!((clamp_zoom(1.9, 0.5) - 2.0).abs() < f64::EPSILON);
    assert!((clamp_zoom(-1.9, -0.5) - (-2.0)).abs() < f64::EPSILON);
    assert!((clamp_zoom(2.0, 0.1) - 2.0).abs() < f64::EPSILON);
    assert!((clamp_zoom(-2.0, -0.1) - (-2.0)).abs() < f64::EPSILON);
}

#[test]
fn pointers_go_to_the_surface_they_are_over() {
    let route = |capturing, x, y| route_pointer(capturing, x, y, 1280, 800, 316, 44);
    assert_eq!(route(false, 400, 300), PointerRoute::Page(MousePosition { x: 84, y: 256 }));
    assert_eq!(route(true, 400, 300), PointerRoute::Chrome(MousePosition { x: 400, y: 300 }));
    assert_eq!(route(false, 315, 300), PointerRoute::Chrome(MousePosition { x: 315, y: 300 }));
    assert_eq!(route(false, 316, 44), PointerRoute::Page(MousePosition { x: 0, y: 0 }));
    assert_eq!(route(false, 1280, 44), PointerRoute::Chrome(MousePosition { x: 1280, y: 44 }));
    assert_eq!(route(false, -1, -1), PointerRoute::Chrome(MousePosition { x: -1, y: -1 }));
    assert_eq!(page_local_coords(5, 5, u32::MAX, 10, 0, 0), None);
    assert_eq!(
        page_local_coords(5, 5, 10, 10, u32::MAX, 0),
        Some(MousePosition { x: 6, y: 5 })
    );
}
