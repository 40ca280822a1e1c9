use oklch_picker::cache::RoundTripCache;
use oklch_picker::color::{DisplayColor, PerceptualColor, ONE};

fn gray(level: u8) -> DisplayColor {
    DisplayColor::new(level, level, level, 255)
}

fn with_hue(hue: u32) -> PerceptualColor {
    PerceptualColor::new(0x3f00_0000, 0, hue, ONE)
}

#[test]
fn set_then_get_returns_the_value() {
    let mut cache = RoundTripCache::new(4);
    let color = with_hue(0x3f80_0000);
    assert_eq!(cache.get(gray(128)), None);
    cache.set(gray(128), color);
    assert_eq!(cache.get(gray(128)), Some(color));
    assert_eq!(cache.len(), 1);
    assert_eq!(cache.capacity(), 4);
}

#[test]
fn new_cache_is_empty() {
    let cache = RoundTripCache::new(3);
    assert_eq!(cache.len(), 0);
    assert_eq!(cache.capacity(), 3);
    assert_eq!(cache.get(gray(0)), None);
}

#[test]
fn keys_differ_by_any_channel() {
    let mut cache = RoundTripCache::new(8);
    cache.set(DisplayColor::new(1, 2, 3, 4), with_hue(1));
    assert_eq!(cache.get(DisplayColor::new(0, 2, 3, 4)), None);
    assert_eq!(cache.get(DisplayColor::new(1, 0, 3, 4)), None);
    assert_eq!(cache.get(DisplayColor::new(1, 2, 0, 4)), None);
    assert_eq!(cache.get(DisplayColor::new(1, 2, 3, 0)), None);
    assert_eq!(cache.get(DisplayColor::new(1, 2, 3, 4)), Some(with_hue(1)));
}

#[test]
fn most_recently_set_wins() {
    let mut cache = RoundTripCache::new(4);
    cache.set(gray(10), with_hue(1));
    cache.set(gray(10), with_hue(2));
    assert_eq!(cache.get(gray(10)), Some(with_hue(2)));
    assert_eq!(cache.len(), 1);
}

#[test]
fn full_cache_drops_the_oldest_entry() {
    let mut cache = RoundTripCache::new(3);
    cache.set(gray(1), with_hue(1));
    cache.set(gray(2), with_hue(2));
    cache.set(gray(3), with_hue(3));
    assert_eq!(cache.len(), 3);
    cache.set(gray(4), with_hue(4));
    assert_eq!(cache.len(), 3);
    assert_eq!(cache.get(gray(1)), None);
    assert_eq!(cache.get(gray(2)), Some(with_hue(2)));
    assert_eq!(cache.get(gray(3)), Some(with_hue(3)));
    assert_eq!(cache.get(gray(4)), Some(with_hue(4)));
}

#[test]
fn overwriting_in_a_full_cache_drops_nothing() {
    let mut cache = RoundTripCache::new(3);
    cache.set(gray(1), with_hue(1));
    cache.set(gray(2), with_hue(2));
    cache.set(gray(3), with_hue(3));
    cache.set(gray(1), with_hue(9));
    assert_eq!(cache.len(), 3);
    assert_eq!(cache.get(gray(1)), Some(with_hue(9)));
    assert_eq!(cache.get(gray(2)), Some(with_hue(2)));
    assert_eq!(cache.get(gray(3)), Some(with_hue(3)));
}

#[test]
fn setting_again_makes_an_entry_the_newest() {
    let mut cache = RoundTripCache::new(3);
    cache.set(gray(1), with_hue(1));
    cache.set(gray(2), with_hue(2));
    cache.set(gray(3), with_hue(3));
    cache.set(gray(1), with_hue(1));
    cache.set(gray(4), with_hue(4));
    assert_eq!(cache.get(gray(1)), Some(with_hue(1)));
    assert_eq!(cache.get(gray(2)), None);
    cache.set(gray(5), with_hue(5));
    assert_eq!(cache.get(gray(3)), None);
    assert_eq!(cache.get(gray(1)), Some(with_hue(1)));
    assert_eq!(cache.get(gray(4)), Some(with_hue(4)));
    assert_eq!(cache.get(gray(5)), Some(with_hue(5)));
}

#[test]
fn reading_does_not_make_an_entry_newer() {
    let mut cache = RoundTripCache::new(2);
    cache.set(gray(1), with_hue(1));
    cache.set(gray(2), with_hue(2));
    assert_eq!(cache.get(gray(1)), Some(with_hue(1)));
    cache.set(gray(3), with_hue(3));
    assert_eq!(cache.get(gray(1)), None);
    assert_eq!(cache.get(gray(2)), Some(with_hue(2)));
}

#[test]
fn cache_of_one_keeps_the_last_entry() {
    let mut cache = RoundTripCache::new(1);
    cache.set(gray(1), with_hue(1));
    cache.set(gray(2), with_hue(2));
    assert_eq!(cache.len(), 1);
    assert_eq!(cache.get(gray(1)), None);
    assert_eq!(cache.get(gray(2)), Some(with_hue(2)));
}

#[test]
fn size_never_passes_the_capacity() {
    let mut cache = RoundTripCache::new(5);
    for level in 0..=255u8 {
        cache.set(gray(level), with_hue(level as u32));
        assert!(cache.len() <= 5);
    }
    assert_eq!(cache.len(), 5);
    for level in 0..=250u8 {
        assert_eq!(cache.get(gray(level)), None);
    }
    for level in 251..=255u8 {
        assert_eq!(cache.get(gray(level)), Some(with_hue(level as u32)));
    }
}

#[test]
fn a_copy_is_independent() {
    let mut cache = RoundTripCache::new(2);
    cache.set(gray(1), with_hue(1));
    let copy = cache.clone();
    cache.set(gray(1), with_hue(7));
    cache.set(gray(2), with_hue(2));
    assert_eq!(copy.get(gray(1)), Some(with_hue(1)));
    assert_eq!(copy.get(gray(2)), None);
    assert_eq!(copy.len(), 1);
    assert_eq!(copy.capacity(), 2);
}

#[test]
fn stored_value_keeps_the_hue_of_a_gray() {
    let mut cache = RoundTripCache::new(4);
    let hue = (2.5f32).to_bits();
    let color = PerceptualColor::new((0.6f32).to_bits(), 0, hue, ONE);
    cache.set(gray(136), color);
    let found = cache.get(gray(136)).unwrap();
    assert_eq!(found.hue, hue);
    assert_eq!(found, color);
}
