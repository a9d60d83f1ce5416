use palette_kmeans::{Color, Theme, UNIT};

const BLACK: Color = Color { l: 0, a: 0, b: 0 };
const RED: Color = Color { l: 5324, a: 8009, b: 6720 };
const BLUE: Color = Color { l: 3230, a: 7919, b: -10786 };
const CYAN: Color = Color { l: 9111, a: -4809, b: -1413 };

#[test]
fn chroma_and_lightness() {
    assert_eq!(RED.chroma(), 10454);
    assert_eq!(BLUE.chroma(), 13380);
    assert_eq!(CYAN.chroma(), 5012);
    assert!(RED.is_light());
    assert!(BLUE.is_dark());
    assert!(!Color::new(5000, 0, 0).is_light());
}

#[test]
fn basic_scores_everything_one() {
    for c in [BLACK, RED, BLUE, CYAN] {
        assert_eq!(Theme::Basic.score(&c), UNIT);
    }
}

#[test]
fn vivid_scores() {
    assert_eq!(Theme::Vivid.score(&BLACK), 0);
    assert_eq!(Theme::Vivid.score(&RED), 5807);
    assert_eq!(Theme::Vivid.score(&BLUE), 7433);
    assert_eq!(Theme::Vivid.score(&CYAN), 0);
}

#[test]
fn muted_scores() {
    assert_eq!(Theme::Muted.score(&BLACK), UNIT);
    assert_eq!(Theme::Muted.score(&RED), 0);
    assert_eq!(Theme::Muted.score(&CYAN), 7216);
}

#[test]
fn light_scores() {
    assert_eq!(Theme::Light.score(&BLACK), 0);
    assert_eq!(Theme::Light.score(&RED), 5324);
    assert_eq!(Theme::Light.score(&BLUE), 0);
    assert_eq!(Theme::Light.score(&CYAN), 9111);
}

#[test]
fn dark_scores() {
    assert_eq!(Theme::Dark.score(&BLACK), UNIT);
    assert_eq!(Theme::Dark.score(&RED), 0);
    assert_eq!(Theme::Dark.score(&BLUE), 6770);
}
