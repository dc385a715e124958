use sketchpad::model::{FetchError, ModelDescriptor};
use sketchpad::router::{route, PointerEvent};
use sketchpad::surface::Surface;

#[test]
fn format_three_elements() {
    let v: Vec<u8> = vec![10, 20, 30];
    assert_eq!(sketchpad::export::format(&v), "10 20 30 Size: 3");
}

#[test]
fn format_empty_keeps_leading_space() {
    let v: Vec<u8> = vec![];
    assert_eq!(sketchpad::export::format(&v), " Size: 0");
}

#[test]
fn format_single_element() {
    let v: Vec<u8> = vec![7];
    assert_eq!(sketchpad::export::format(&v), "7 Size: 1");
}

#[test]
fn format_largest_byte() {
    let v: Vec<u8> = vec![255, 0];
    assert_eq!(sketchpad::export::format(&v), "255 0 Size: 2");
}

#[test]
fn channel_sample_takes_every_fourth_byte() {
    let data: Vec<u8> = vec![9, 8, 7, 6, 5, 4, 3, 2];
    assert_eq!(sketchpad::sampler::channel_sample(&data), vec![9, 5]);
}

#[test]
fn channel_sample_ignores_trailing_fragment() {
    let data: Vec<u8> = vec![1, 2, 3, 4, 5, 6];
    assert_eq!(sketchpad::sampler::channel_sample(&data), vec![1]);
}

#[test]
fn channel_sample_empty() {
    let data: Vec<u8> = vec![];
    assert_eq!(sketchpad::sampler::channel_sample(&data), Vec::<u8>::new());
}

#[test]
fn fresh_surface_samples_all_background() {
    let s = Surface::new(4, 4);
    let v = s.sample();
    assert_eq!(v.len(), 16);
    assert!(v.iter().all(|&b| b == 255));
    assert_eq!(
        sketchpad::export::format(&v),
        "255 255 255 255 255 255 255 255 255 255 255 255 255 255 255 255 Size: 16"
    );
}

#[test]
fn zero_area_surface_samples_empty() {
    let s = Surface::new(0, 0);
    let v = s.sample();
    assert_eq!(v.len(), 0);
    assert_eq!(sketchpad::export::format(&v), " Size: 0");
}

#[test]
fn move_while_idle_mutates_nothing() {
    let mut s = Surface::new(8, 8);
    let before = s.sample();
    s.extend_stroke(3, 3);
    s.extend_stroke(7, 7);
    assert!(!s.is_active());
    assert_eq!(s.sample(), before);
}

#[test]
fn begin_then_extend_renders_and_moves_cursor() {
    let mut s = Surface::new(8, 8);
    s.begin_stroke(1, 1);
    assert!(s.is_active());
    assert_eq!(s.cursor(), (1, 1));
    s.extend_stroke(3, 3);
    assert_eq!(s.cursor(), (3, 3));
    let v = s.sample();
    // the diagonal pixels of the segment are stroke-colored, not background
    for &(x, y) in &[(1usize, 1usize), (2, 2), (3, 3)] {
        assert_eq!(v[y * 8 + x], 0, "pixel ({x},{y}) should be stroke-colored");
    }
    // a pixel far from the segment keeps the background value
    assert_eq!(v[7 * 8 + 7], 255);
}

#[test]
fn end_stroke_is_idempotent() {
    let mut s = Surface::new(4, 4);
    s.end_stroke();
    assert!(!s.is_active());
    s.begin_stroke(2, 2);
    s.end_stroke();
    assert!(!s.is_active());
    s.end_stroke();
    assert!(!s.is_active());
}

#[test]
fn sample_is_pure() {
    let mut s = Surface::new(4, 4);
    s.begin_stroke(0, 0);
    s.extend_stroke(3, 0);
    let first = s.sample();
    let second = s.sample();
    assert_eq!(first, second);
    assert!(s.is_active(), "sampling must not change the stroke state");
}

#[test]
fn routed_pointer_session_darkens_diagonal() {
    let mut s = Surface::new(4, 4);
    route(&mut s, PointerEvent::Down(1, 1));
    route(&mut s, PointerEvent::Move(3, 3));
    route(&mut s, PointerEvent::Up);
    assert!(!s.is_active());
    let v = s.sample();
    assert_eq!(v.len(), 16);
    for &(x, y) in &[(1usize, 1usize), (2, 2), (3, 3)] {
        assert!(v[y * 4 + x] < 255, "pixel ({x},{y}) should differ from background");
    }
}

#[test]
fn routed_moves_while_idle_are_noops() {
    let mut s = Surface::new(4, 4);
    route(&mut s, PointerEvent::Move(0, 0));
    route(&mut s, PointerEvent::Move(3, 3));
    route(&mut s, PointerEvent::Up);
    let v = s.sample();
    assert!(v.iter().all(|&b| b == 255));
}

#[test]
fn model_descriptor_keeps_weights() {
    let d = ModelDescriptor::new(vec![1, 2, 3]);
    assert_eq!(d.weights, vec![1, 2, 3]);
    assert_ne!(FetchError::Network, FetchError::Decode);
}

#[test]
fn surface_reports_dimensions() {
    let s = Surface::new(5, 3);
    assert_eq!(s.width(), 5);
    assert_eq!(s.height(), 3);
    assert_eq!(s.raw_pixels().len(), 60);
    assert!(!s.is_active());
}
