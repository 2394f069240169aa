use turubai::font::Font;
use turubai::font::FontWeight;

#[test]
fn font_name() {
    let font = Font::new("Ariel", 16, FontWeight::Regular, false, false);
    assert_eq!(font.name(), "Ariel-Regular");
}

#[test]
fn font_name_italic() {
    let font = Font::new("Inter", 14, FontWeight::Bold, true, false);
    assert_eq!(font.name(), "Inter-Bold-Italic");
    assert!(font.is_italic());
    assert!(!font.is_underlined());
    assert_eq!(font.size(), 14);
    assert_eq!(font.weight(), FontWeight::Bold);
}

#[test]
fn font_default_is_regular_arial() {
    let font = Font::default();
    assert_eq!(font.name(), "Arial-Regular");
    assert_eq!(font.size(), 12);
}

#[test]
fn weight_values_follow_convention() {
    assert_eq!(FontWeight::Thin.value(), 100);
    assert_eq!(FontWeight::Regular.value(), 400);
    assert_eq!(FontWeight::SemiLight.value(), 350);
    assert_eq!(FontWeight::ExtraBlack.value(), 950);
    assert_eq!(FontWeight::default(), FontWeight::Regular);
}
