use gametest::base::{clamp_channel, Color};
use gametest::material::{CheckeredPatternTexture, ConstantTexture};

#[test]
fn color_keeps_its_channels() {
    let c = Color::new(1, 2, 3);
    assert_eq!(c.get(), [1, 2, 3]);
    assert_eq!(c, Color::new(1, 2, 3));
    assert_ne!(c, Color::new(3, 2, 1));
}

#[test]
fn channels_are_clamped() {
    assert_eq!(clamp_channel(-5), 0);
    assert_eq!(clamp_channel(0), 0);
    assert_eq!(clamp_channel(128), 128);
    assert_eq!(clamp_channel(255), 255);
    assert_eq!(clamp_channel(300), 255);
    assert_eq!(clamp_channel(i64::MAX), 255);
    assert_eq!(clamp_channel(i64::MIN), 0);
}

#[test]
fn from_rounded_clamps_each_channel() {
    let c = Color::from_rounded(-1, 128, 1000);
    assert_eq!(c.get(), [0, 128, 255]);
}

#[test]
fn constant_texture_is_the_same_everywhere() {
    let t = ConstantTexture::new(Color::new(255, 0, 0));
    assert_eq!(t.color_at(0, 0), Color::new(255, 0, 0));
    assert_eq!(t.color_at(17, 90000), Color::new(255, 0, 0));
}

#[test]
fn checker_cells_alternate() {
    let t = CheckeredPatternTexture::new(Color::new(100, 100, 100), 4, 4);
    let dark = Color::new(20, 20, 20);
    let light = Color::new(100, 100, 100);
    assert_eq!(t.color_at(0, 0), dark);
    assert_eq!(t.color_at(3, 3), dark);
    assert_eq!(t.color_at(4, 0), light);
    assert_eq!(t.color_at(0, 4), light);
    assert_eq!(t.color_at(4, 4), dark);
    assert_eq!(t.color_at(8, 1), dark);
    assert_eq!(t.color_at(12, 7), dark);
    assert_eq!(t.color_at(12, 4), dark);
    assert_eq!(t.color_at(13, 9), light);
}

#[test]
fn checker_cells_of_unequal_sides() {
    let t = CheckeredPatternTexture::new(Color::new(0, 0, 200), 2, 5);
    assert_eq!(t.get_width(), 2);
    assert_eq!(t.get_height(), 5);
    assert_eq!(t.color_at(1, 4), Color::new(20, 20, 20));
    assert_eq!(t.color_at(2, 4), Color::new(0, 0, 200));
    assert_eq!(t.color_at(1, 5), Color::new(0, 0, 200));
    assert_eq!(t.color_at(u32::MAX, u32::MAX), Color::new(20, 20, 20));
}

#[test]
fn checker_switches_one_cell_over() {
    let t = CheckeredPatternTexture::new(Color::new(9, 8, 7), 3, 6);
    for (x, y) in [(0u32, 0u32), (2, 5), (7, 13), (100, 41)] {
        assert_ne!(t.color_at(x, y), t.color_at(x + 3, y));
        assert_ne!(t.color_at(x, y), t.color_at(x, y + 6));
    }
}
