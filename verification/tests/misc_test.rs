use felix::line_edit::LineEdit;
use felix::config::{Colorname, Config, ConfigColor};
use felix::cursor::{
    after_delete, after_visual_delete,
    fit_to_length, go_to_bottom, go_to_top, half_page_down, half_page_up, move_down, move_up,
};
use felix::errors::FxError;
use felix::jumplist::JumpList;
use felix::layout::{make_layout, Layout, Num, Side, Split, BEGINNING_ROW};
use felix::session::{Session, SortKey};
use felix::term::{move_to, to_info_bar};
use std::collections::VecDeque;

fn n(index: usize, skip: u16) -> Num {
    Num { index, skip }
}

#[test]
fn move_down_scrolls_near_the_bottom() {
    // 24 rows: the cursor scrolls the list once it reaches row 20
    assert_eq!(move_down(n(0, 0), 3, 24, 50), Some((n(1, 0), 4)));
    assert_eq!(move_down(n(17, 0), 20, 24, 50), Some((n(18, 1), 20)));
    // a short list never scrolls
    assert_eq!(move_down(n(17, 0), 20, 24, 19), Some((n(18, 0), 21)));
    // at the last item nothing moves
    assert_eq!(move_down(n(49, 30), 22, 24, 50), None);
    assert_eq!(move_down(n(0, 0), 3, 24, 0), None);
}

#[test]
fn move_up_scrolls_near_the_top() {
    assert_eq!(move_up(n(0, 0), 3), None);
    assert_eq!(move_up(n(5, 0), 8), Some((n(4, 0), 7)));
    assert_eq!(move_up(n(10, 4), 6), Some((n(9, 3), 6)));
    assert_eq!(move_up(n(3, 0), 6), Some((n(2, 0), 5)));
}

#[test]
fn down_then_up_returns() {
    let (m, y) = move_down(n(2, 0), 5, 24, 50).unwrap();
    assert_eq!(move_up(m, y), Some((n(2, 0), 5)));
}

#[test]
fn top_and_bottom() {
    assert_eq!(go_to_top(), (n(0, 0), BEGINNING_ROW));
    assert_eq!(go_to_bottom(n(0, 0), 24, 0), None);
    assert_eq!(go_to_bottom(n(0, 0), 24, 50), Some((n(49, 29), 23)));
    assert_eq!(go_to_bottom(n(0, 0), 24, 10), Some((n(9, 0), 12)));
}

#[test]
fn half_pages() {
    // 10 rows: half a page is 5 steps
    let (m, y) = half_page_down(n(0, 0), 3, 10, 30);
    assert_eq!((m, y), (n(5, 2), 6));
    let (m, y) = half_page_up(m, y, 10, 30);
    assert_eq!((m, y), (n(0, 0), 3));
    // stops at the last item
    assert_eq!(half_page_down(n(0, 0), 3, 10, 2), (n(1, 0), 4));
}

#[test]
fn fitting_after_the_list_shrinks() {
    assert_eq!(fit_to_length(n(4, 0), 7, 0), (n(0, 0), BEGINNING_ROW));
    assert_eq!(fit_to_length(n(4, 0), 7, 3), (n(2, 0), 5));
    assert_eq!(fit_to_length(n(1, 0), 4, 3), (n(1, 0), 4));
}

#[test]
fn jumplist_moves_back_and_forth() {
    let mut j = JumpList { pos: 0, list: VecDeque::new() };
    j.add("/a");
    j.add("/b");
    j.add("/c");
    assert_eq!(j.get_forward(), None);
    assert_eq!(j.get_backward(), Some("/b".to_string()));
    j.pos_backward();
    assert_eq!(j.get_backward(), Some("/a".to_string()));
    assert_eq!(j.get_forward(), Some("/c".to_string()));
    j.pos_forward();
    assert_eq!(j.get_backward(), Some("/b".to_string()));
    // adding after going back drops the newer entries
    j.pos_backward();
    j.add("/d");
    assert_eq!(j.list, VecDeque::from(vec!["/d".to_string(), "/b".to_string(), "/a".to_string()]));
    assert_eq!(j.pos, 0);
    j.pos_backward();
    j.remove_backward();
    assert_eq!(j.list, VecDeque::from(vec!["/d".to_string(), "/b".to_string()]));
    j.remove_forward();
    assert_eq!(j.list, VecDeque::from(vec!["/b".to_string()]));
}

#[test]
fn error_messages() {
    let cases = vec![
        (FxError::Io("disk".to_string()), "Error: disk"),
        (FxError::GetItem, "Error: Cannot get item info"),
        (FxError::OpenItem("x".to_string()), "Error: Cannot open item -> x"),
        (FxError::OpenNewWindow("nope".to_string()), "Error: nope"),
        (FxError::DefaultEditor, "Error: Cannot open the default editor"),
        (FxError::TomlDe, "Error: Cannot deserialize toml"),
        (FxError::TomlSer, "Error: Cannot serialize toml"),
        (FxError::WalkDir, "Error: Cannot read directory"),
        (FxError::Encode, "Error: Incorrect encoding"),
        (FxError::PutItem("/p".to_string()), "Error: Cannot copy -> \"/p\""),
        (FxError::RemoveItem("/r".to_string()), "Error: Cannot remove -> \"/r\""),
        (FxError::TooSmallWindowSize, "Error: Too small window size"),
        (FxError::Log, "Error: Cannot initialize logger"),
        (FxError::Panic, "Error: Felix panicked"),
        (FxError::Dirs("d".to_string()), "Error: d"),
        (FxError::Arg("a".to_string()), "Error: a"),
        (FxError::Unpack("u".to_string()), "Error: u"),
        (FxError::Nix("n".to_string()), "Error: n"),
        (FxError::Config("c".to_string()), "Error: c"),
        (FxError::InvalidPath, "Error: Invalid path"),
        (FxError::Utf8, "Error: Invalid UTF-8"),
    ];
    for (e, m) in cases {
        assert_eq!(e.message(), m.to_string());
    }
}

#[test]
fn layout_sizes() {
    assert_eq!(make_layout(20), (20, 18));
    assert_eq!(make_layout(80), (64, 61));
    let session = Session { sort_by: SortKey::Time, show_hidden: true, preview: None, split: None };
    let l = Layout::new(80, 24, &session, Config::default(), true, false, false).unwrap();
    assert_eq!(l.side, Side::Empty);
    assert_eq!(l.split, Split::Vertical);
    assert_eq!(l.colors, ConfigColor::default());
    assert_eq!(l.update_column_and_row((80, 24)), (80, 24));
    assert!(matches!(
        Layout::new(80, 2, &session, Config::default(), true, false, false),
        Err(FxError::TooSmallWindowSize)
    ));
}

#[test]
fn layout_side_panel() {
    let session = Session { sort_by: SortKey::Name, show_hidden: false, preview: Some(true), split: Some(Split::Horizontal) };
    let mut l = Layout::new(80, 24, &session, Config::default(), false, false, false).unwrap();
    assert!(l.is_preview());
    assert_eq!(l.update_column_and_row((80, 24)), (80, 12));
    l.show_reg();
    assert!(l.is_reg());
    l.reset_side();
    assert!(!l.is_reg() && !l.is_preview());
    l.show_preview();
    assert!(l.is_preview());
    let (cells, last) = l.clear_preview(13);
    assert_eq!(cells.len(), 25);
    assert_eq!(cells[0], (1, 13));
    assert_eq!(cells[24], (1, 37));
    assert_eq!(last, (1, 13));
}

#[test]
fn terminal_positions() {
    assert_eq!(move_to(1, 1), (0, 0));
    assert_eq!(move_to(5, 3), (4, 2));
    assert_eq!(to_info_bar(), (1, 1));
}

#[test]
fn default_colors() {
    let c = ConfigColor::default();
    assert_eq!(c.dir_fg, Colorname::LightCyan);
    assert_eq!(c.dirty_fg, Colorname::Red);
    assert_eq!(ConfigColor::or_default(None), c);
    let s = Session::default();
    assert_eq!(s.sort_by, SortKey::Name);
    assert!(s.show_hidden);
}

#[test]
fn cursor_after_deletions() {
    assert_eq!(after_delete(n(3, 0), 6, 0), (n(3, 0), BEGINNING_ROW));
    assert_eq!(after_delete(n(3, 0), 6, 3), (n(2, 0), 5));
    assert_eq!(after_delete(n(1, 0), 4, 3), (n(1, 0), 4));
    assert_eq!(after_visual_delete(n(5, 2), 6, 0), (n(0, 0), BEGINNING_ROW));
    // row past the end, items scrolled off all deleted
    assert_eq!(after_visual_delete(n(5, 4), 4, 3), (n(2, 2), BEGINNING_ROW));
    // row past the end, some scrolled-off items remain
    assert_eq!(after_visual_delete(n(9, 1), 11, 4), (n(3, 1), 5));
    // still in bounds
    assert_eq!(after_visual_delete(n(1, 0), 4, 5), (n(1, 0), 4));
}

#[test]
fn line_edit_typing_and_moving() {
    let mut l = LineEdit::new(2);
    assert!(l.insert('a', None));
    assert!(l.insert('c', None));
    assert!(l.left());
    assert!(l.insert('b', None));
    assert_eq!(l.text.iter().collect::<String>(), "abc");
    assert_eq!((l.pos, l.col, l.end), (2, 4, 5));
    // wide characters take two columns; control characters are not typed
    assert!(l.right());
    assert!(l.insert('日', None));
    assert!(!l.insert('\u{7}', None));
    assert_eq!((l.pos, l.col, l.end), (4, 7, 7));
    // a limit keeps the cursor within the line
    assert!(!l.insert('x', Some(7)));
    assert!(l.insert('x', Some(8)));
    assert!(!l.right());
    assert!(l.backspace());
    assert!(l.backspace());
    assert_eq!(l.text.iter().collect::<String>(), "abc");
    assert_eq!((l.pos, l.col, l.end), (3, 5, 5));
    l.left();
    l.left();
    l.left();
    assert!(!l.left());
    assert!(!l.backspace());
    assert_eq!((l.pos, l.col), (0, 2));
}

#[test]
fn line_edit_from_text_and_paste() {
    let mut l = LineEdit::from_text("name.txt", 10).unwrap();
    assert_eq!((l.pos, l.col, l.end), (8, 18, 18));
    l.insert_text("_a b", Some(20));
    // only the characters that keep the cursor within column 20 are typed
    assert_eq!(l.text.iter().collect::<String>(), "name.txt_a");
    assert!(LineEdit::from_text("x", u16::MAX).is_none());
}
