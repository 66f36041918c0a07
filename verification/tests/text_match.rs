use test_descriptors::color::ColorAssertion;
use test_descriptors::terminal::{Screen, ScreenCell, TermColor};
use test_descriptors::text_match::{
    check_vertical_order, find_all_matches, find_single_match, OrderError, TextMatch,
    VisibilityError,
};

fn create_mock_text_match(text: &str, row: u16, col: u16) -> TextMatch {
    TextMatch::new(
        text.to_string(),
        Some(row),
        Some(col),
        true,
        ColorAssertion::not_found(),
        ColorAssertion::not_found(),
    )
}

#[test]
fn assert_vertical_order_passes_when_ordered() {
    let item1 = create_mock_text_match("Item1", 10, 5);
    let item2 = create_mock_text_match("Item2", 11, 5);
    let item3 = create_mock_text_match("Item3", 12, 5);
    assert_eq!(check_vertical_order(&[item1, item2, item3]), Ok(()));
}

#[test]
fn assert_vertical_order_fails_when_out_of_order() {
    let item1 = create_mock_text_match("Item1", 10, 5);
    let item2 = create_mock_text_match("Item2", 8, 5);
    let item3 = create_mock_text_match("Item3", 12, 5);
    assert_eq!(
        check_vertical_order(&[item1, item2, item3]),
        Err(OrderError::OutOfOrder { index: 1 })
    );
}

#[test]
fn assert_vertical_order_fails_when_item_not_visible() {
    let item1 = create_mock_text_match("Item1", 10, 5);
    let item2 = TextMatch::not_found("Item2");
    assert_eq!(check_vertical_order(&[item1, item2]), Err(OrderError::ItemNotFound { index: 1 }));
}

#[test]
fn assert_vertical_order_passes_with_same_row_different_col() {
    let item1 = create_mock_text_match("Item1", 10, 5);
    let item2 = create_mock_text_match("Item2", 10, 20);
    assert_eq!(check_vertical_order(&[item1, item2]), Ok(()));
}

#[test]
fn assert_vertical_order_single_item() {
    let item1 = create_mock_text_match("Item1", 10, 5);
    assert_eq!(check_vertical_order(&[item1]), Ok(()));
}

#[test]
fn assert_vertical_order_empty_list() {
    assert_eq!(check_vertical_order(&[]), Err(OrderError::EmptyList));
}

#[test]
fn same_position_twice_is_in_order() {
    let a = create_mock_text_match("a", 3, 3);
    let b = create_mock_text_match("b", 3, 3);
    assert_eq!(check_vertical_order(&[a, b]), Ok(()));
}

#[test]
fn same_row_earlier_column_is_out_of_order() {
    let a = create_mock_text_match("a", 3, 9);
    let b = create_mock_text_match("b", 3, 2);
    assert_eq!(check_vertical_order(&[a, b]), Err(OrderError::OutOfOrder { index: 1 }));
}

#[test]
fn visibility_checks() {
    let shown = create_mock_text_match("x", 1, 2);
    assert!(shown.is_visible());
    assert_eq!(shown.position(), Some((1, 2)));
    assert!(shown.assert_visible().is_ok());
    match shown.assert_not_visible() {
        Err(VisibilityError::Visible { text, row, col }) => {
            assert_eq!(text, "x");
            assert_eq!((row, col), (Some(1), Some(2)));
        }
        other => panic!("unexpected {:?}", other),
    }
    let hidden = TextMatch::not_found("y");
    assert!(!hidden.is_visible());
    assert_eq!(hidden.position(), None);
    assert!(hidden.assert_not_visible().is_ok());
    match hidden.assert_visible() {
        Err(VisibilityError::NotVisible { text }) => assert_eq!(text, "y"),
        other => panic!("unexpected {:?}", other),
    }
}

fn plain_line(text: &str) -> Vec<ScreenCell> {
    text.chars()
        .map(|c| ScreenCell {
            text: c.to_string(),
            fg: TermColor::Rgb(255, 0, 0),
            bg: TermColor::Rgb(0, 0, 40),
        })
        .collect()
}

#[test]
fn matches_on_a_screen_carry_the_cell_colors() {
    let screen = Screen::new(vec![plain_line("a ab"), plain_line("ab")], 5, 10);
    let ms = find_all_matches(&screen, "ab");
    assert_eq!(ms.len(), 2);
    assert_eq!(ms[0].position(), Some((0, 2)));
    assert_eq!(ms[1].position(), Some((1, 0)));
    assert_eq!(ms[0].fg.rgb(), Some((255, 0, 0)));
    assert_eq!(ms[0].bg.rgb(), Some((0, 0, 40)));
    assert_eq!(check_vertical_order(&ms), Ok(()));
}

#[test]
fn single_match_counts_occurrences() {
    let screen = Screen::new(vec![plain_line("xx yy"), plain_line("xx")], 5, 10);
    assert_eq!(find_single_match(&screen, "xx").err(), Some(2));
    let one = find_single_match(&screen, "yy").unwrap();
    assert_eq!(one.position(), Some((0, 3)));
    let none = find_single_match(&screen, "zz").unwrap();
    assert!(!none.is_visible());
}
