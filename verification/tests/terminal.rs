use test_descriptors::command::Command;
use test_descriptors::terminal::{
    ansi_to_rgb, canonicalize_bytes, convert_color, Cell, Screen, ScreenCell, TermColor,
};

fn line(text: &str, fg: TermColor) -> Vec<ScreenCell> {
    text.chars().map(|c| ScreenCell { text: c.to_string(), fg, bg: TermColor::Default }).collect()
}

#[test]
fn line_feeds_get_carriage_returns() {
    assert_eq!(canonicalize_bytes(b"a\nb"), b"a\r\nb".to_vec());
    assert_eq!(canonicalize_bytes(b"a\r\nb"), b"a\r\nb".to_vec());
    assert_eq!(canonicalize_bytes(b"\n\n"), b"\r\n\r\n".to_vec());
    assert_eq!(canonicalize_bytes(b"x\ry"), b"x\ry".to_vec());
    assert_eq!(canonicalize_bytes(b""), Vec::<u8>::new());
}

#[test]
fn canonicalizing_twice_changes_nothing_more() {
    for input in [&b"a\nb\r\nc\n"[..], b"\r\r\n\n", b"plain"] {
        let once = canonicalize_bytes(input);
        assert_eq!(canonicalize_bytes(&once), once);
    }
}

#[test]
fn palette_colors() {
    assert_eq!(ansi_to_rgb(0), (0, 0, 0));
    assert_eq!(ansi_to_rgb(1), (128, 0, 0));
    assert_eq!(ansi_to_rgb(7), (128, 128, 128));
    assert_eq!(ansi_to_rgb(9), (255, 64, 64));
    assert_eq!(ansi_to_rgb(15), (255, 255, 255));
    assert_eq!(ansi_to_rgb(196), (255, 0, 0));
    assert_eq!(ansi_to_rgb(16), (0, 0, 0));
    assert_eq!(ansi_to_rgb(231), (255, 255, 255));
    assert_eq!(ansi_to_rgb(232), (8, 8, 8));
    assert_eq!(ansi_to_rgb(255), (238, 238, 238));
    assert_eq!(convert_color(TermColor::Default), (255, 255, 255));
    assert_eq!(convert_color(TermColor::Palette(196)), (255, 0, 0));
    assert_eq!(convert_color(TermColor::Rgb(1, 2, 3)), (1, 2, 3));
}

#[test]
fn rendering_shows_the_visible_lines_trimmed() {
    let s = Screen::new(
        vec![
            line("scrolled away", TermColor::Default),
            line("Hello World   ", TermColor::Default),
            line("", TermColor::Default),
            line("Line2", TermColor::Default),
        ],
        3,
        40,
    );
    assert_eq!(s.render(), "Hello World\n\nLine2");
    assert_eq!(s.screen_content(), s.render());
    assert_eq!(Screen::empty(10, 20).render(), "");
}

#[test]
fn finding_text_on_the_screen() {
    let s = Screen::new(vec![line("test test test", TermColor::Default)], 10, 40);
    assert_eq!(s.find_all_text("test"), vec![(0, 0), (0, 5), (0, 10)]);
    assert_eq!(s.find_all_text("tt"), vec![]);
    let s = Screen::new(vec![line("Search for this text", TermColor::Default)], 10, 40);
    assert_eq!(s.find_all_text("this"), vec![(0, 11)]);
    assert!(s.find_all_text("missing").is_empty());
    let s = Screen::new(vec![line("aaaa", TermColor::Default)], 10, 40);
    assert_eq!(s.find_all_text("aa"), vec![(0, 0), (0, 2)]);
}

#[test]
fn finding_text_counts_cells_not_characters() {
    // a cell holding a base character and a combining mark
    let mut l = line("ab", TermColor::Default);
    l.insert(0, ScreenCell { text: "e\u{301}".to_string(), fg: TermColor::Default, bg: TermColor::Default });
    let s = Screen::new(vec![l], 5, 10);
    assert_eq!(s.find_all_text("ab"), vec![(0, 1)]);
}

#[test]
fn cells_and_their_colors() {
    let s = Screen::new(vec![line("Red", TermColor::Rgb(255, 0, 0))], 10, 40);
    let c = s.get_cell(0, 0).unwrap();
    assert_eq!(c.character, 'R');
    assert_eq!((c.fg_r, c.fg_g, c.fg_b), (255, 0, 0));
    assert_eq!((c.bg_r, c.bg_g, c.bg_b), (255, 255, 255));
    assert_eq!(s.get_cell(100, 0), None);
    assert_eq!(s.get_cell(0, 100), None);
    assert_eq!(s.get_cell(1, 0), None);
    let d = Cell::default();
    assert_eq!((d.character, d.fg_r, d.bg_r), (' ', 255, 0));
}

#[test]
fn command_builder_keeps_everything() {
    let c = Command::new("prog")
        .args(&["a", "b"])
        .arg("c")
        .env("K", "1")
        .env("K", "2")
        .envs(vec![("L".to_string(), "3".to_string())])
        .cwd("/tmp")
        .pty_size(30, 90);
    assert_eq!(c.program(), "prog");
    assert_eq!(c.build_args(), vec!["a", "b", "c"]);
    let mut env = c.build_env();
    env.sort();
    assert_eq!(env, vec![("K".to_string(), "2".to_string()), ("L".to_string(), "3".to_string())]);
    assert_eq!(c.get_cwd().as_deref(), Some("/tmp"));
    assert_eq!(c.get_pty_size(), (30, 90));
    assert_eq!(Command::new("x").get_pty_size(), (24, 80));
}
