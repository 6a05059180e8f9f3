use infinite_tiles::procedural::{generate_procedural_image, procedural_pixel, Paint};
use infinite_tiles::str_map::StrMap;

/// The patterns as they are drawn with floating point and with stamps.
fn drawn(id: u32) -> Vec<Paint> {
    let size = 64usize;
    let mut image = vec![Paint::White; size * size];
    match id % 4 {
        0 => {
            for y in 0..size {
                for x in 0..size {
                    if (x / 8 + y / 8) % 2 == 0 {
                        image[y * size + x] = Paint::Blue;
                    }
                }
            }
        }
        1 => {
            let center = size as f32 / 2.0;
            let radius = size as f32 / 3.0;
            for y in 0..size {
                for x in 0..size {
                    let dx = x as f32 - center;
                    let dy = y as f32 - center;
                    if (dx * dx + dy * dy).sqrt() < radius {
                        image[y * size + x] = Paint::Green;
                    }
                }
            }
        }
        2 => {
            for y in 0..size {
                for x in 0..size {
                    if (x + y) % 16 < 8 {
                        image[y * size + x] = Paint::Red;
                    }
                }
            }
        }
        _ => {
            for y in 0..size {
                for x in 0..size {
                    if x % 8 == 0 && y % 8 == 0 {
                        for dy in 0..4 {
                            for dx in 0..4 {
                                if x + dx < size && y + dy < size {
                                    image[(y + dy) * size + x + dx] = Paint::Yellow;
                                }
                            }
                        }
                    }
                }
            }
        }
    }
    image
}

#[test]
fn the_patterns_match_their_drawings() {
    for id in 0..8 {
        assert_eq!(generate_procedural_image(id), drawn(id));
    }
    assert_eq!(generate_procedural_image(u32::MAX), drawn(3));
}

#[test]
fn a_pattern_has_one_pixel_for_each_of_the_tile() {
    let image = generate_procedural_image(2);
    assert_eq!(image.len(), 4096);
    for y in 0..64u16 {
        for x in 0..64u16 {
            assert_eq!(image[y as usize * 64 + x as usize], procedural_pixel(2, x, y));
        }
    }
}

#[test]
fn single_pixels_of_each_pattern() {
    assert_eq!(procedural_pixel(0, 0, 0), Paint::Blue);
    assert_eq!(procedural_pixel(0, 8, 0), Paint::White);
    assert_eq!(procedural_pixel(0, 8, 8), Paint::Blue);
    assert_eq!(procedural_pixel(4, 63, 63), Paint::Blue);
    assert_eq!(procedural_pixel(1, 32, 32), Paint::Green);
    assert_eq!(procedural_pixel(1, 0, 0), Paint::White);
    assert_eq!(procedural_pixel(1, 32, 11), Paint::Green);
    assert_eq!(procedural_pixel(1, 32, 10), Paint::White);
    assert_eq!(procedural_pixel(1, 53, 32), Paint::Green);
    assert_eq!(procedural_pixel(1, 54, 32), Paint::White);
    assert_eq!(procedural_pixel(2, 7, 0), Paint::Red);
    assert_eq!(procedural_pixel(2, 8, 0), Paint::White);
    assert_eq!(procedural_pixel(2, 8, 8), Paint::Red);
    assert_eq!(procedural_pixel(3, 3, 3), Paint::Yellow);
    assert_eq!(procedural_pixel(3, 4, 3), Paint::White);
    assert_eq!(procedural_pixel(3, 59, 56), Paint::Yellow);
    assert_eq!(procedural_pixel(3, 60, 56), Paint::White);
}

#[test]
fn a_string_map_keeps_one_value_for_each_key() {
    let mut map: StrMap<u32> = StrMap::new();
    assert_eq!(map.len(), 0);
    assert_eq!(map.insert("a".to_string(), 1), None);
    assert_eq!(map.insert("b".to_string(), 2), None);
    assert_eq!(map.insert("a".to_string(), 3), Some(1));
    assert_eq!(map.len(), 2);
    assert_eq!(map.get("a"), Some(&3));
    assert_eq!(map.get("b"), Some(&2));
    assert_eq!(map.get("c"), None);
    assert!(map.contains_key("b"));
    assert!(!map.contains_key(""));
    assert_eq!(map.keys(), vec!["a".to_string(), "b".to_string()]);
    assert_eq!(map.remove("a"), Some(3));
    assert_eq!(map.remove("a"), None);
    assert_eq!(map.len(), 1);
    assert_eq!(map.get("a"), None);
    assert_eq!(map.get("b"), Some(&2));
    assert_eq!(map.keys(), vec!["b".to_string()]);
}
