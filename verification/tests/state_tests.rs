//! Tests of the configuration types and the performance overlay state.

use midi_rs::config::EffectQuality;
use midi_rs::config::MidiConfig;
use midi_rs::renderer::OverlayPosition;
use midi_rs::renderer::PerformanceOverlay;

#[test]
fn midi_config_defaults() {
    let c = MidiConfig::default();
    assert!(c.streaming_enabled);
    assert_eq!(c.buffer_size, 65536);
}

#[test]
fn effect_quality_compares_by_variant() {
    assert_eq!(EffectQuality::High, EffectQuality::High);
    assert_ne!(EffectQuality::Low, EffectQuality::Ultra);
}

#[test]
fn overlay_defaults_hidden_top_left() {
    let o = PerformanceOverlay::default();
    assert!(!o.is_visible());
    assert_eq!(o.position(), OverlayPosition::TopLeft);
    assert!(o.get_lines().is_empty());
}

#[test]
fn overlay_toggle_flips_visibility() {
    let mut o = PerformanceOverlay::new(false);
    o.toggle();
    assert!(o.is_visible());
    o.toggle();
    assert!(!o.is_visible());
}

#[test]
fn overlay_set_visible_and_position() {
    let mut o = PerformanceOverlay::new(true);
    assert!(o.is_visible());
    o.set_visible(false);
    assert!(!o.is_visible());
    o.set_position(OverlayPosition::BottomRight);
    assert_eq!(o.position(), OverlayPosition::BottomRight);
}

#[test]
fn overlay_lines_are_what_was_stored() {
    let mut o = PerformanceOverlay::new(true);
    o.lines = vec![String::from("FPS: 60.0"), String::from("Notes: 3")];
    let lines = o.get_lines();
    assert_eq!(lines.len(), 2);
    assert_eq!(lines[0], "FPS: 60.0");
    assert_eq!(lines[1], "Notes: 3");
}
