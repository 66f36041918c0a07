use test_descriptors::color::{ColorAssertion, ColorCheckError, ColorMatcher};

#[test]
fn test_grayscale_matcher() {
    assert!(ColorMatcher::Grayscale.matches(128, 128, 128));
    assert!(ColorMatcher::Grayscale.matches(100, 110, 105));
    assert!(!ColorMatcher::Grayscale.matches(255, 0, 0));
}

#[test]
fn test_color_matchers() {
    assert!(ColorMatcher::RedIsh.matches(255, 0, 0));
    assert!(ColorMatcher::RedIsh.matches(200, 50, 50));
    assert!(!ColorMatcher::RedIsh.matches(0, 255, 0));

    assert!(ColorMatcher::GreenIsh.matches(0, 255, 0));
    assert!(!ColorMatcher::GreenIsh.matches(255, 0, 0));

    assert!(ColorMatcher::BlueIsh.matches(0, 0, 255));
    assert!(!ColorMatcher::BlueIsh.matches(255, 0, 0));

    assert!(ColorMatcher::YellowIsh.matches(255, 255, 0));
    assert!(ColorMatcher::CyanIsh.matches(0, 255, 255));
    assert!(ColorMatcher::MagentaIsh.matches(255, 0, 255));
}

#[test]
fn test_color_assertion_exact() {
    let assertion = ColorAssertion::from_rgb(255, 128, 64);
    assert!(assertion.exact(255, 128, 64).is_ok());
}

#[test]
fn test_color_assertion_exact_fails() {
    let assertion = ColorAssertion::from_rgb(255, 128, 64);
    assert_eq!(
        assertion.exact(0, 0, 0),
        Err(ColorCheckError::Mismatch { expected: (0, 0, 0), actual: (255, 128, 64) })
    );
}

#[test]
fn test_color_assertion_matcher() {
    let assertion = ColorAssertion::from_rgb(255, 0, 0);
    assert!(assertion.assert_color(ColorMatcher::RedIsh).is_ok());
}

#[test]
fn assert_grayscale_passes_for_pure_gray() {
    let color = ColorAssertion::from_rgb(128, 128, 128);
    assert!(color.assert_grayscale().is_ok());
}

#[test]
fn assert_grayscale_passes_for_near_gray() {
    let color = ColorAssertion::from_rgb(100, 105, 102);
    assert!(color.assert_grayscale().is_ok());
}

#[test]
fn assert_grayscale_fails_for_red() {
    let color = ColorAssertion::from_rgb(255, 0, 0);
    assert_eq!(
        color.assert_grayscale(),
        Err(ColorCheckError::NotGrayscale { r: 255, g: 0, b: 0, difference: 255 })
    );
}

#[test]
fn assert_grayscale_fails_for_yellow() {
    let color = ColorAssertion::from_rgb(255, 255, 0);
    assert_eq!(
        color.assert_grayscale(),
        Err(ColorCheckError::NotGrayscale { r: 255, g: 255, b: 0, difference: 255 })
    );
}

#[test]
fn assert_not_grayscale_passes_for_red() {
    let color = ColorAssertion::from_rgb(255, 0, 0);
    assert!(color.assert_not_grayscale().is_ok());
}

#[test]
fn assert_not_grayscale_passes_for_yellow() {
    let color = ColorAssertion::from_rgb(255, 255, 0);
    assert!(color.assert_not_grayscale().is_ok());
}

#[test]
fn assert_not_grayscale_fails_for_gray() {
    let color = ColorAssertion::from_rgb(128, 128, 128);
    assert_eq!(
        color.assert_not_grayscale(),
        Err(ColorCheckError::UnexpectedGrayscale { r: 128, g: 128, b: 128 })
    );
}

#[test]
fn assert_grayscale_fails_when_not_found() {
    let color = ColorAssertion::not_found();
    assert_eq!(color.assert_grayscale(), Err(ColorCheckError::NotFound));
}

#[test]
fn assert_not_grayscale_fails_when_not_found() {
    let color = ColorAssertion::not_found();
    assert_eq!(color.assert_not_grayscale(), Err(ColorCheckError::NotFound));
}

#[test]
fn grayscale_tolerance_edge_is_twenty() {
    assert!(ColorMatcher::Grayscale.matches(100, 120, 110));
    assert!(!ColorMatcher::Grayscale.matches(100, 121, 110));
    assert_eq!(
        ColorAssertion::from_rgb(100, 121, 110).assert_grayscale(),
        Err(ColorCheckError::NotGrayscale { r: 100, g: 121, b: 110, difference: 21 })
    );
}

#[test]
fn clearly_above_needs_more_than_thirty() {
    assert!(!ColorMatcher::RedIsh.matches(80, 50, 50));
    assert!(ColorMatcher::RedIsh.matches(81, 50, 50));
    // the saturating sum keeps 255 from ever being clearly above 225 and more
    assert!(!ColorMatcher::RedIsh.matches(255, 230, 0));
}

#[test]
fn yellowish_needs_red_and_green_close() {
    assert!(ColorMatcher::YellowIsh.matches(200, 141, 0));
    assert!(!ColorMatcher::YellowIsh.matches(200, 140, 0));
}

#[test]
fn color_check_of_unknown_components_reports_missing_values() {
    let c = ColorAssertion::new(Some(1), None, Some(3), true);
    assert_eq!(c.rgb(), None);
    assert_eq!(c.exact(1, 2, 3), Err(ColorCheckError::ValuesMissing));
    assert_eq!(c.assert_color(ColorMatcher::Grayscale), Err(ColorCheckError::ValuesMissing));
}

#[test]
fn assert_matches_and_assert_rgb_agree_with_their_aliases() {
    let c = ColorAssertion::from_rgb(10, 200, 20);
    assert_eq!(c.assert_matches(ColorMatcher::GreenIsh), c.assert_color(ColorMatcher::GreenIsh));
    assert_eq!(
        c.assert_color(ColorMatcher::BlueIsh),
        Err(ColorCheckError::NoMatch { r: 10, g: 200, b: 20, matcher: ColorMatcher::BlueIsh })
    );
    assert_eq!(c.assert_rgb(10, 200, 20), Ok(()));
    assert_eq!(c.rgb(), Some((10, 200, 20)));
}

#[test]
fn grayscale_checks_are_complementary_on_concrete_colors() {
    for (r, g, b) in [(0u8, 0u8, 0u8), (128, 140, 130), (255, 0, 0), (30, 30, 60)] {
        let c = ColorAssertion::from_rgb(r, g, b);
        assert_ne!(c.assert_grayscale().is_ok(), c.assert_not_grayscale().is_ok());
        assert_eq!(c.assert_grayscale().is_ok(), ColorMatcher::Grayscale.matches(r, g, b));
    }
}

#[test]
fn grayscale_matches_no_dominant_matcher() {
    for m in [
        ColorMatcher::RedIsh,
        ColorMatcher::GreenIsh,
        ColorMatcher::BlueIsh,
        ColorMatcher::YellowIsh,
        ColorMatcher::CyanIsh,
        ColorMatcher::MagentaIsh,
    ] {
        assert!(!m.matches(120, 130, 125));
    }
}

#[test]
fn matcher_names_are_their_debug_names() {
    assert_eq!(ColorMatcher::RedIsh.name(), "RedIsh");
    assert_eq!(ColorMatcher::MagentaIsh.name(), format!("{:?}", ColorMatcher::MagentaIsh));
}
