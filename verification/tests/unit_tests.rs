use turubai::color::Color;
use turubai::conv::conv_strike_through_style;
use turubai::conv::conv_underline_style;
use turubai::text::TextLineStyle;
use turubai::units::Resolved;
use turubai::units::Unit;
use turubai::units::MAX_LENGTH;

#[test]
fn percent_resolution_totality() {
    // Without a reference a percent unit is unbounded; against a reference
    // it is exactly its share, for a handful of sample points.
    assert_eq!(Unit::percent(50).to_pixels(None), Resolved::Unbounded);
    assert_eq!(Unit::percent(0).to_pixels(None), Resolved::Unbounded);
    assert_eq!(Unit::percent(50).to_pixels(Some(200)), Resolved::Finite(100));
    assert_eq!(Unit::percent(100).to_pixels(Some(640)), Resolved::Finite(640));
    assert_eq!(Unit::percent(0).to_pixels(Some(640)), Resolved::Finite(0));
    assert_eq!(Unit::percent(150).to_pixels(Some(100)), Resolved::Finite(150));
    assert_eq!(Unit::percent(33).to_pixels(Some(100)), Resolved::Finite(33));
}

#[test]
fn absolute_and_font_relative_ignore_available() {
    assert_eq!(Unit::px(42).to_pixels(None), Resolved::Finite(42));
    assert_eq!(Unit::px(42).to_pixels(Some(7)), Resolved::Finite(42));
    assert_eq!(Unit::em(2).to_pixels(None), Resolved::Finite(32));
    assert_eq!(Unit::em(2).to_pixels(Some(1000)), Resolved::Finite(32));
}

#[test]
fn auto_is_undefined() {
    assert_eq!(Unit::Auto.to_pixels(None), Resolved::Undefined);
    assert_eq!(Unit::Auto.to_pixels(Some(100)), Resolved::Undefined);
}

#[test]
fn lengths_saturate_at_the_cap() {
    assert_eq!(Unit::px(u64::MAX).to_pixels(None), Resolved::Finite(MAX_LENGTH));
    assert_eq!(
        Unit::percent(u64::MAX).to_pixels(Some(u64::MAX)),
        Resolved::Finite(MAX_LENGTH)
    );
}

#[test]
fn custom_colors_carry_their_channels() {
    assert_eq!(
        Color::new(10, 20, 30),
        Color::Custom { r: 10, g: 20, b: 30, a: 255 }
    );
    assert_eq!(
        Color::new_with_alpha(1, 2, 3, 4),
        Color::Custom { r: 1, g: 2, b: 3, a: 4 }
    );
}

#[test]
fn decoration_styles_map_to_css_keywords() {
    assert_eq!(conv_underline_style(&TextLineStyle::NoLine), "none");
    assert_eq!(conv_underline_style(&TextLineStyle::Single), "underline");
    assert_eq!(conv_underline_style(&TextLineStyle::Dotted), "underline dotted");
    assert_eq!(conv_strike_through_style(&TextLineStyle::Single), "line-through");
    assert_eq!(conv_strike_through_style(&TextLineStyle::Double), "line-through double");
    assert_eq!(conv_strike_through_style(&TextLineStyle::NoLine), "none");
}
