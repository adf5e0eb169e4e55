use llm3d_host::overlay::{
    detach_engine, embed_engine, reposition_to_last, update_engine_frame, Overlay, OverlayState,
};

#[test]
fn detached_overlay_has_nothing_to_place() {
    let mut o = Overlay::new();
    assert_eq!(reposition_to_last(&o), Ok(None));
    assert_eq!(update_engine_frame(&mut o, 1, 2, 3, 4, 5, 6), Ok(None));
    assert_eq!(o.state, None);
}

#[test]
fn embed_update_reposition_detach() {
    let mut o = Overlay::new();
    assert_eq!(embed_engine(&mut o, 77), Ok(()));
    let zero = OverlayState { tauri_ns_window: 77, last_x: 0, last_y: 0, last_w: 0, last_h: 0 };
    assert_eq!(reposition_to_last(&o), Ok(Some(zero)));
    assert_eq!(0.0f64.to_bits(), 0);

    let (x, y, w, h) = (12.5f64, 40.0f64, 800.0f64, 600.25f64);
    let updated = OverlayState {
        tauri_ns_window: 78,
        last_x: x.to_bits(),
        last_y: y.to_bits(),
        last_w: w.to_bits(),
        last_h: h.to_bits(),
    };
    assert_eq!(
        update_engine_frame(&mut o, 78, x.to_bits(), y.to_bits(), w.to_bits(), h.to_bits(), 2.0f64.to_bits()),
        Ok(Some(updated))
    );
    assert_eq!(reposition_to_last(&o), Ok(Some(updated)));
    assert_eq!(detach_engine(&mut o), Ok(()));
    assert_eq!(reposition_to_last(&o), Ok(None));
}
