use palette_swap::{Color, ColorMap};

const RED: Color = Color { r: 255, g: 0, b: 0, a: 255 };
const BLACK: Color = Color { r: 0, g: 0, b: 0, a: 255 };
const WHITE: Color = Color { r: 255, g: 255, b: 255, a: 255 };

#[test]
fn color_map_starts_empty() {
    let map = ColorMap::new();
    assert!(map.is_empty());
    assert_eq!(map.len(), 0);
    assert_eq!(map.get(Color::new(1, 2, 3, 4)), None);
    assert!(!map.contains(Color::new(1, 2, 3, 4)));
}

#[test]
fn color_new_sets_the_four_channels() {
    let c = Color::new(1, 2, 3, 4);
    assert_eq!(c, Color { r: 1, g: 2, b: 3, a: 4 });
}

#[test]
fn pack_lays_channels_out_in_base_256() {
    assert_eq!(Color::new(0, 0, 0, 0).pack(), 0);
    assert_eq!(Color::new(1, 0, 0, 0).pack(), 1);
    assert_eq!(Color::new(0, 1, 0, 0).pack(), 256);
    assert_eq!(Color::new(0, 0, 1, 0).pack(), 65_536);
    assert_eq!(Color::new(0, 0, 0, 1).pack(), 16_777_216);
    assert_eq!(Color::new(1, 2, 3, 4).pack(), 67_305_985);
    assert_eq!(Color::new(255, 255, 255, 255).pack(), u32::MAX);
}

#[test]
fn pack_tells_every_channel_apart() {
    let base = Color::new(10, 20, 30, 40);
    assert_ne!(base.pack(), Color::new(11, 20, 30, 40).pack());
    assert_ne!(base.pack(), Color::new(10, 21, 30, 40).pack());
    assert_ne!(base.pack(), Color::new(10, 20, 31, 40).pack());
    assert_ne!(base.pack(), Color::new(10, 20, 30, 41).pack());
}

#[test]
fn insert_binds_and_get_finds() {
    let mut map = ColorMap::new();
    map.insert(RED, BLACK);
    assert!(!map.is_empty());
    assert_eq!(map.len(), 1);
    assert!(map.contains(RED));
    assert_eq!(map.get(RED), Some(BLACK));
    assert_eq!(map.get(BLACK), None);
}

#[test]
fn insert_of_a_bound_key_replaces_the_binding() {
    let mut map = ColorMap::new();
    map.insert(RED, BLACK);
    map.insert(RED, WHITE);
    assert_eq!(map.len(), 1);
    assert_eq!(map.get(RED), Some(WHITE));
}

#[test]
fn insertion_order_leaves_no_trace() {
    let mut first = ColorMap::new();
    first.insert(RED, BLACK);
    first.insert(WHITE, RED);
    let mut second = ColorMap::new();
    second.insert(WHITE, RED);
    second.insert(RED, BLACK);
    for c in [RED, WHITE, BLACK] {
        assert_eq!(first.get(c), second.get(c));
    }
    assert_eq!(first.len(), second.len());
}

#[test]
fn alpha_is_part_of_the_key() {
    let opaque = Color::new(9, 9, 9, 255);
    let clear = Color::new(9, 9, 9, 0);
    let mut map = ColorMap::new();
    map.insert(opaque, BLACK);
    assert_eq!(map.get(opaque), Some(BLACK));
    assert_eq!(map.get(clear), None);
    assert_eq!(map.apply(clear), clear);
}

#[test]
fn apply_maps_keys_and_keeps_the_rest() {
    let mut map = ColorMap::new();
    map.insert(RED, BLACK);
    assert_eq!(map.apply(RED), BLACK);
    assert_eq!(map.apply(WHITE), WHITE);
    assert_eq!(map.apply(BLACK), BLACK);
}

#[test]
fn a_color_may_map_to_itself_or_to_another_key() {
    let mut map = ColorMap::new();
    map.insert(RED, RED);
    map.insert(BLACK, RED);
    assert_eq!(map.apply(RED), RED);
    assert_eq!(map.apply(BLACK), RED);
    assert_eq!(map.len(), 2);
}
