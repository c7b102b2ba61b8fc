use felix::dispatch::{Effect, PromptKind};
use felix::keymap::Action;
use felix::config::{Colorname, Config, ConfigColor};
use felix::errors::FxError;
use felix::keymap::KeyCode;
use felix::layout::{Num, PreviewType, Side, Split, BEGINNING_ROW};
use felix::op::{DeletedFiles, OpKind, Operation};
use felix::preview::{read_item, replace_tabs, set_preview_type, to_ascii_lowercase, EntryMeta};
use felix::session::{Session, SortKey};
use felix::state::{
    put_name, register_key, text_contains, write_permission, CursorPlan, FileType, ItemBuffer, ItemInfo, Move,
    Registers, State,
};

fn item(name: &str, file_type: FileType) -> ItemInfo {
    ItemInfo {
        file_type,
        file_name: name.to_string(),
        file_path: format!("/tmp/d/{}", name),
        symlink_dir_path: None,
        file_size: 0,
        file_ext: None,
        modified: None,
        is_hidden: name.starts_with('.'),
        selected: false,
        matches: false,
        preview_type: None,
        preview_scroll: 0,
        content: None,
        permissions: None,
        is_dirty: false,
    }
}

fn buf(name: &str) -> ItemBuffer {
    ItemBuffer {
        file_type: FileType::File,
        file_name: name.to_string(),
        file_path: format!("/trash/{}", name),
    }
}

fn names(v: &[ItemBuffer]) -> Vec<String> {
    v.iter().map(|b| b.file_name.clone()).collect()
}

fn config() -> Config {
    Config {
        default: Some("vim".to_string()),
        match_vim_exit_behavior: None,
        exec_config: Some(vec![("feh".to_string(), vec!["png".to_string()])]),
        color: None,
    }
}

fn session() -> Session {
    Session {
        sort_by: SortKey::Name,
        show_hidden: false,
        preview: Some(true),
        split: Some(Split::Horizontal),
    }
}

fn state() -> State {
    State::new(config(), session(), 80, 24, false, false, false, false, "nano".to_string()).unwrap()
}

#[test]
fn new_state_refuses_tiny_terminal() {
    let r = State::new(config(), session(), 3, 24, false, false, false, false, String::new());
    assert!(matches!(r, Err(FxError::TooSmallWindowSize)));
    let r = State::new(config(), session(), 80, 3, false, false, false, false, String::new());
    assert!(matches!(r, Err(FxError::TooSmallWindowSize)));
}

#[test]
fn new_state_takes_config_and_session() {
    let st = state();
    assert_eq!(st.default, "vim");
    assert_eq!(st.layout.side, Side::Preview);
    assert_eq!(st.layout.split, Split::Horizontal);
    assert_eq!(st.layout.y, BEGINNING_ROW);
    assert!(!st.match_vim_exit_behavior);
    assert_eq!(st.commands.as_ref().unwrap().get("png"), Some("feh".to_string()));
    let mut c = config();
    c.default = None;
    let st = State::new(c, session(), 80, 24, false, false, false, false, "nano".to_string()).unwrap();
    assert_eq!(st.default, "nano");
}

#[test]
fn get_item_error_past_the_end() {
    let mut st = state();
    assert!(matches!(st.get_item(), Err(FxError::GetItem)));
    st.list = vec![item("a", FileType::File)];
    assert_eq!(st.get_item().unwrap().file_name, "a");
}

#[test]
fn yank_into_unnamed_zero_and_named() {
    let mut r = Registers::new();
    assert_eq!(r.yank_item(&[buf("a"), buf("b")], None, false), 2);
    assert_eq!(names(&r.unnamed), vec!["a", "b"]);
    assert_eq!(names(&r.zero), vec!["a", "b"]);
    r.yank_item(&[buf("c")], Some('x'), false);
    assert_eq!(names(&r.unnamed), vec!["c"]);
    assert_eq!(names(&r.zero), vec!["a", "b"]);
    r.yank_item(&[buf("d")], Some('x'), true);
    let got = r.check_reg(&KeyCode::Char('x')).unwrap();
    assert_eq!(names(&got), vec!["c", "d"]);
    r.yank_item(&[buf("e")], Some('x'), false);
    assert_eq!(names(&r.check_reg(&KeyCode::Char('x')).unwrap()), vec!["e"]);
}

#[test]
fn named_registers_stay_sorted() {
    let mut r = Registers::new();
    r.append_item(&[buf("z")], 'z');
    r.append_item(&[buf("a")], 'a');
    r.append_item(&[buf("m")], 'm');
    let keys: Vec<char> = r.named.iter().map(|p| p.0).collect();
    assert_eq!(keys, vec!['a', 'm', 'z']);
}

#[test]
fn check_reg_by_key() {
    let mut st = state();
    st.registers.yank_item(&[buf("y")], None, false);
    st.yank_after_delete(&[buf("orig")], &[buf("t1")], None, false);
    let r = &st.registers;
    assert_eq!(names(&r.check_reg(&KeyCode::Char('"')).unwrap()), vec!["t1"]);
    assert_eq!(names(&r.check_reg(&KeyCode::Char('0')).unwrap()), vec!["y"]);
    assert_eq!(names(&r.check_reg(&KeyCode::Char('1')).unwrap()), vec!["t1"]);
    assert!(r.check_reg(&KeyCode::Char('2')).is_none());
    assert!(r.check_reg(&KeyCode::Char('q')).is_none());
    assert!(r.check_reg(&KeyCode::Char('!')).is_none());
    assert!(r.check_reg(&KeyCode::Enter).is_none());
}

#[test]
fn numbered_registers_keep_nine_newest_first() {
    let mut st = state();
    for i in 0..12 {
        let name = format!("f{}", i);
        st.yank_after_delete(&[buf(&name)], &[buf(&name)], None, false);
    }
    assert_eq!(st.registers.numbered.len(), 9);
    assert_eq!(names(&st.registers.numbered[0]), vec!["f11"]);
    assert_eq!(names(&st.registers.numbered[8]), vec!["f3"]);
    // nothing deleted: nothing recorded
    let ops = st.operations.op_list.len();
    assert_eq!(st.yank_after_delete(&[buf("x")], &[], None, false), 0);
    assert_eq!(st.operations.op_list.len(), ops);
}

#[test]
fn delete_is_recorded_for_undo() {
    let mut st = state();
    st.current_dir = "/tmp/d".to_string();
    st.yank_after_delete(&[buf("a")], &[buf("a")], Some('k'), false);
    assert_eq!(st.operations.pos, 0);
    match st.operations.op_list.last().unwrap() {
        OpKind::Delete(d) => {
            assert_eq!(d.dir, "/tmp/d");
            assert_eq!(names(&d.trash), vec!["a"]);
        }
        _ => panic!("not a delete"),
    }
    assert_eq!(names(&st.registers.check_reg(&KeyCode::Char('k')).unwrap()), vec!["a"]);
}

#[test]
fn prepare_reg_lists_registers() {
    let mut r = Registers::new();
    assert_eq!(r.prepare_reg(40), vec!["".to_string()]);
    r.yank_item(&[buf("a"), buf("b")], Some('c'), false);
    let lines = r.prepare_reg(40);
    assert_eq!(lines, vec!["\"\" a b".to_string(), "\"c a b".to_string()]);
    r.yank_item(&[buf("z")], None, false);
    let lines = r.prepare_reg(40);
    assert_eq!(
        lines,
        vec!["\"\" z".to_string(), "\"0 z".to_string(), "\"c a b".to_string()]
    );
}

fn del(name: &str) -> OpKind {
    OpKind::Delete(DeletedFiles {
        trash: vec![buf(name)],
        original: vec![buf(name)],
        dir: "/".to_string(),
    })
}

#[test]
fn undo_redo_targets() {
    let mut ops = Operation::new();
    assert_eq!(ops.undo_target(), None);
    assert_eq!(ops.redo_target(), None);
    ops.push(del("a"));
    ops.push(del("b"));
    assert_eq!(ops.undo_target(), Some(1));
    ops.mark_undone();
    assert_eq!(ops.redo_target(), Some(1));
    assert_eq!(ops.undo_target(), Some(0));
    ops.mark_undone();
    assert_eq!(ops.undo_target(), None);
    assert_eq!(ops.redo_target(), Some(0));
    ops.mark_redone();
    assert_eq!(ops.undo_target(), Some(0));
    // a new operation drops the undone one
    ops.branch();
    assert_eq!(ops.op_list.len(), 1);
    ops.push(del("c"));
    assert_eq!(ops.pos, 0);
    assert_eq!(ops.op_list.len(), 2);
    assert_eq!(ops.undo_target(), Some(1));
}

#[test]
fn selection_and_matches() {
    let mut st = state();
    st.list = vec![
        item("alpha", FileType::File),
        item("beta", FileType::File),
        item("gamma", FileType::File),
    ];
    st.select_from_top(1);
    let sel: Vec<bool> = st.list.iter().map(|i| i.selected).collect();
    assert_eq!(sel, vec![true, true, false]);
    st.select_to_bottom(1);
    let sel: Vec<bool> = st.list.iter().map(|i| i.selected).collect();
    assert_eq!(sel, vec![false, true, true]);
    st.v_start = Some(1);
    st.reset_selection();
    assert!(st.list.iter().all(|i| !i.selected));
    assert!(st.v_start.is_none());
    st.highlight_matches("ta");
    let m: Vec<bool> = st.list.iter().map(|i| i.matches).collect();
    assert_eq!(m, vec![false, true, false]);
}

#[test]
fn substring_search() {
    assert!(text_contains("hello", "ell"));
    assert!(text_contains("hello", ""));
    assert!(!text_contains("hello", "lol"));
    assert!(!text_contains("he", "hello"));
}

#[test]
fn footer_for_item_and_keyword() {
    let mut st = state();
    let mut a = item("a.txt", FileType::File);
    a.file_ext = Some("txt".to_string());
    a.file_size = 2000;
    a.permissions = Some(33188);
    st.list = vec![a, item("b", FileType::File), item("ab", FileType::File)];
    assert_eq!(st.footer_text(), Some(" 1/3 txt 2KB 644".to_string()));
    st.layout.terminal_column = 5;
    assert_eq!(st.footer_text(), Some(" 1/3 ".to_string()));
    st.keyword = Some("b".to_string());
    assert_eq!(st.footer_text(), Some(" /b - 2 matches".to_string()));
    st.keyword = Some("a.".to_string());
    assert_eq!(st.footer_text(), Some(" /a. - 1 match".to_string()));
    st.keyword = None;
    st.layout.nums.index = 7;
    assert_eq!(st.footer_text(), None);
}

#[test]
fn out_of_bounds_check() {
    let mut st = state();
    st.list = vec![item("a", FileType::File), item("b", FileType::File)];
    st.layout.y = BEGINNING_ROW + 1;
    assert!(!st.is_out_of_bounds());
    st.layout.y = BEGINNING_ROW + 2;
    assert!(st.is_out_of_bounds());
}

#[test]
fn scrolling_the_preview() {
    let mut st = state();
    assert!(!st.scroll_down_preview());
    st.list = vec![item("a", FileType::File)];
    assert!(!st.scroll_up_preview());
    assert!(st.scroll_down_preview());
    assert!(st.scroll_down_preview());
    assert_eq!(st.list[0].preview_scroll, 2);
    assert!(st.scroll_up_preview());
    assert_eq!(st.list[0].preview_scroll, 1);
}

#[test]
fn refresh_recomputes_layout() {
    let mut st = state();
    st.layout.split = Split::Vertical;
    st.layout.nums.index = 30;
    let y = st.refresh(40, 20, 25, (80, 24));
    assert_eq!(y, 19);
    assert_eq!(st.layout.nums.index, 24);
    assert_eq!(st.layout.preview_start, (42, BEGINNING_ROW));
    assert_eq!(st.layout.preview_space, (39, 17));
    assert_eq!(st.layout.time_start_pos, 24);
    assert_eq!(st.layout.name_max_len, 21);
}

#[test]
fn unpack_destination_avoids_existing_names() {
    let mut st = state();
    assert!(matches!(st.unpack(), Err(FxError::GetItem)));
    st.current_dir = "/home/u".to_string();
    st.list = vec![item("arc.tar", FileType::File), item("arc.tar_1", FileType::Directory)];
    let (src, dest) = st.unpack().unwrap();
    assert_eq!(src, "/tmp/d/arc.tar");
    assert_eq!(dest, "/home/u/arc.tar_2");
}

#[test]
fn chdir_down_then_up_restores_cursor() {
    let mut st = state();
    st.current_dir = "/a".to_string();
    st.layout.nums = Num { index: 4, skip: 1 };
    st.layout.y = 6;
    let plan = st.chdir("/a/b", Move::Down);
    assert!(matches!(plan, CursorPlan::Top));
    assert_eq!(st.current_dir, "/a/b");
    assert_eq!(st.layout.nums, Num { index: 0, skip: 0 });
    st.layout.nums = Num { index: 2, skip: 0 };
    st.layout.y = 5;
    let plan = st.chdir("/a", Move::Up);
    assert!(matches!(plan, CursorPlan::Restore(6)));
    assert_eq!(st.current_dir, "/a");
    assert_eq!(st.layout.nums, Num { index: 4, skip: 1 });
    // going back down into b restores where we were there
    let plan = st.chdir("/a/b", Move::Down);
    assert!(matches!(plan, CursorPlan::Restore(5)));
    assert_eq!(st.layout.nums, Num { index: 2, skip: 0 });
    assert_eq!(st.jumplist.list[0], "/a/b");
}

#[test]
fn chdir_up_without_memo_finds_the_directory_left() {
    let mut st = state();
    st.current_dir = "/x/y/child".to_string();
    let plan = st.chdir("/x/y", Move::Up);
    let name = match plan {
        CursorPlan::OnName(n) => n,
        _ => panic!("expected a name"),
    };
    assert_eq!(name, Some("child".to_string()));
    st.list = (0..6).map(|i| item(&format!("d{}", i), FileType::Directory)).collect();
    st.list.push(item("child", FileType::Directory));
    let y = st.place_cursor_on(&name);
    assert_eq!(st.layout.nums, Num { index: 6, skip: 3 });
    assert_eq!(y, BEGINNING_ROW + 3);
    let y = st.place_cursor_on(&Some("d1".to_string()));
    assert_eq!(st.layout.nums, Num { index: 1, skip: 0 });
    assert_eq!(y, BEGINNING_ROW + 1);
    let y = st.place_cursor_on(&None);
    assert_eq!(y, BEGINNING_ROW);
}

#[test]
fn chdir_jump_and_list_clear_memos() {
    let mut st = state();
    st.chdir("/a", Move::Down);
    st.chdir("/b", Move::Jump);
    assert!(st.p_memo.is_empty() && st.c_memo.is_empty());
    assert_eq!(st.jumplist.list.len(), 2);
    st.chdir("/c", Move::List);
    assert_eq!(st.jumplist.list.len(), 2);
    assert_eq!(st.current_dir, "/c");
}

#[test]
fn change_order_dirs_first_and_hidden_filtered() {
    let mut st = state();
    st.list = vec![
        item("f10", FileType::File),
        item("D2", FileType::Directory),
        item(".hidden", FileType::File),
        item("f9", FileType::File),
        item("d1", FileType::Directory),
    ];
    st.change_order();
    let n: Vec<String> = st.list.iter().map(|i| i.file_name.clone()).collect();
    assert_eq!(n, vec!["d1", "D2", "f9", "f10"]);
}

#[test]
fn sort_by_time_newest_first() {
    let mut st = state();
    st.layout.sort_by = SortKey::Time;
    st.layout.show_hidden = true;
    let mut a = item("a", FileType::File);
    a.modified = Some("2020-01-01".to_string());
    let mut b = item("b", FileType::File);
    b.modified = Some("2023-01-01".to_string());
    let c = item("c", FileType::File);
    let mut d = item("d", FileType::File);
    d.modified = Some("2020-01-01".to_string());
    st.update_list(vec![a, b, c, d], &["/tmp/d/d".to_string()]);
    let n: Vec<String> = st.list.iter().map(|i| i.file_name.clone()).collect();
    assert_eq!(n, vec!["b", "a", "d", "c"]);
    assert!(st.list[2].is_dirty);
    assert!(!st.list[0].is_dirty);
}

#[test]
fn open_command_by_extension() {
    let st = state();
    let mut png = item("p.png", FileType::File);
    png.file_ext = Some("png".to_string());
    assert_eq!(st.open_command(&png), (vec!["feh".to_string(), "/tmp/d/p.png".to_string()], false));
    let txt = item("t", FileType::File);
    assert_eq!(st.open_command(&txt), (vec!["vim".to_string(), "/tmp/d/t".to_string()], true));
}

#[test]
fn display_name_and_color() {
    let mut st = state();
    st.layout.name_max_len = 6;
    assert_eq!(st.display_name(&item("short", FileType::File)), "short");
    assert_eq!(st.display_name(&item("longer_name", FileType::File)), "long..");
    st.layout.colors = ConfigColor {
        dir_fg: Colorname::Blue,
        file_fg: Colorname::White,
        symlink_fg: Colorname::Yellow,
        dirty_fg: Colorname::Red,
    };
    assert_eq!(st.item_color(&item("d", FileType::Directory)), Colorname::Blue);
    let mut dirty = item("f", FileType::File);
    dirty.is_dirty = true;
    assert_eq!(st.item_color(&dirty), Colorname::Red);
}

#[test]
fn write_permission_by_owner_group_other() {
    assert!(!write_permission(0, true, 0, 0, 0, 0, false));
    assert!(write_permission(0o444, true, 1, 1, 0, 0, false));
    assert!(write_permission(0o644, false, 5, 5, 5, 9, false));
    assert!(!write_permission(0o444, false, 5, 5, 5, 9, false));
    assert!(write_permission(0o464, false, 5, 7, 6, 7, false));
    assert!(write_permission(0o464, false, 5, 7, 6, 8, true));
    assert!(!write_permission(0o464, false, 5, 7, 6, 8, false));
    assert!(write_permission(0o446, false, 5, 7, 6, 8, false));
}

#[test]
fn read_item_from_metadata() {
    let meta = EntryMeta {
        is_dir: false,
        is_file: true,
        is_symlink: false,
        size: 10,
        permissions: Some(0o100644),
        modified: Some("2024-01-01T00:00:00+00:00".to_string()),
        symlink_dir_path: None,
    };
    let it = read_item(".Rc.TXT".to_string(), "/h/.Rc.TXT".to_string(), Some("TXT".to_string()), Some(meta.clone()));
    assert_eq!(it.file_type, FileType::File);
    assert!(it.is_hidden);
    assert_eq!(it.file_ext, Some("txt".to_string()));
    assert_eq!(it.file_size, 10);
    let mut dir_meta = meta.clone();
    dir_meta.is_dir = true;
    let d = read_item("x.d".to_string(), "/h/x.d".to_string(), Some("d".to_string()), Some(dir_meta));
    assert_eq!(d.file_type, FileType::Directory);
    assert_eq!(d.file_ext, None);
    let broken = read_item(".b".to_string(), "/h/.b".to_string(), None, None);
    assert_eq!(broken.file_type, FileType::File);
    assert!(!broken.is_hidden);
    assert_eq!(broken.file_size, 0);
}

#[test]
fn preview_types() {
    let mut d = item("d", FileType::Directory);
    set_preview_type(&mut d, None);
    assert_eq!(d.preview_type, Some(PreviewType::Directory));
    let mut t = item("t", FileType::File);
    set_preview_type(&mut t, Some(b"a\tb".to_vec()));
    assert_eq!(t.preview_type, Some(PreviewType::Text));
    assert_eq!(t.content, Some("a    b".to_string()));
    let mut bin = item("b", FileType::File);
    set_preview_type(&mut bin, Some(vec![1, 0, 2]));
    assert_eq!(bin.preview_type, Some(PreviewType::Binary));
    let mut pdf = item("p", FileType::File);
    set_preview_type(&mut pdf, Some(b"%PDF-1.4".to_vec()));
    assert_eq!(pdf.preview_type, Some(PreviewType::Binary));
    let mut bom = item("u", FileType::File);
    set_preview_type(&mut bom, Some(vec![0xFF, 0xFE, 0x00, 0x41]));
    assert_eq!(bom.preview_type, Some(PreviewType::Text));
    assert_eq!(bom.content, None);
    let mut img = item("i", FileType::File);
    let mut png = vec![0x89, 0x50, 0x4E, 0x47, 0x0D, 0x0A, 0x1A, 0x0A];
    png.resize(20, 0);
    set_preview_type(&mut img, Some(png));
    assert_eq!(img.preview_type, Some(PreviewType::Image));
    let mut unreadable = item("n", FileType::File);
    set_preview_type(&mut unreadable, None);
    assert_eq!(unreadable.preview_type, Some(PreviewType::NotReadable));
    let mut big = item("big", FileType::File);
    big.file_size = 2_000_000_000;
    set_preview_type(&mut big, None);
    assert_eq!(big.preview_type, Some(PreviewType::TooBigSize));
}

#[test]
fn text_helpers() {
    assert_eq!(replace_tabs("\t\tx"), "        x");
    assert_eq!(to_ascii_lowercase("ÄbC"), "Äbc");
}

#[test]
fn get_item_mut_changes_the_item_under_the_cursor() {
    let mut st = state();
    assert!(matches!(st.get_item_mut(), Err(FxError::GetItem)));
    st.list = vec![item("a", FileType::File), item("b", FileType::File)];
    st.layout.nums.index = 1;
    st.get_item_mut().unwrap().selected = true;
    assert!(st.list[1].selected);
    assert!(!st.list[0].selected);
}

#[test]
fn reorder_keeps_the_cursor_row() {
    let mut st = state();
    st.list = vec![item("b", FileType::File), item("a", FileType::File)];
    st.reorder(4);
    assert_eq!(st.layout.y, 4);
    assert_eq!(st.list[0].file_name, "a");
}

#[test]
fn list_up_rows() {
    let mut st = state();
    st.list = (0..30).map(|i| item(&format!("f{}", i), FileType::File)).collect();
    st.layout.terminal_row = 10;
    st.layout.nums.skip = 5;
    let rows = st.list_up();
    assert_eq!(rows.len(), 7);
    assert_eq!(rows[0], (BEGINNING_ROW, 5));
    assert_eq!(rows[6], (BEGINNING_ROW + 6, 11));
    st.layout.nums.skip = 27;
    assert_eq!(st.list_up(), vec![(3, 27), (4, 28), (5, 29)]);
}

#[test]
fn visual_steps_select_and_unselect() {
    let mut st = state();
    st.list = (0..5).map(|i| item(&format!("f{}", i), FileType::File)).collect();
    st.layout.nums = Num { index: 2, skip: 0 };
    st.layout.y = BEGINNING_ROW + 2;
    st.v_start = Some(2);
    st.list[2].selected = true;
    assert!(st.step_down());
    assert!(st.list[3].selected);
    assert!(st.step_up());
    assert!(!st.list[3].selected);
    assert!(st.step_up());
    assert!(st.list[1].selected);
    assert_eq!(st.layout.nums.index, 1);
    assert_eq!(st.layout.y, BEGINNING_ROW + 1);
    st.v_start = None;
    st.half_page_down();
    assert_eq!(st.layout.nums.index, 4);
    assert!(!st.step_down());
    st.half_page_up();
    assert_eq!(st.layout.nums.index, 0);
}

#[test]
fn put_is_recorded_and_named_freely() {
    let mut st = state();
    st.current_dir = "/w".to_string();
    st.record_put(&[buf("a")], vec!["/w/a".to_string()]);
    match st.operations.op_list.last().unwrap() {
        OpKind::Put(p) => {
            assert_eq!(p.put, vec!["/w/a".to_string()]);
            assert_eq!(p.dir, "/w");
            assert_eq!(names(&p.original), vec!["a"]);
        }
        _ => panic!("not a put"),
    }
    let names_here = vec!["a".to_string(), "a_1".to_string(), "x.txt".to_string()];
    let dir = ItemBuffer { file_type: FileType::Directory, file_name: "a".to_string(), file_path: "/a".to_string() };
    assert_eq!(put_name(&dir, &names_here), "a_2");
    let file = ItemBuffer { file_type: FileType::File, file_name: "x.txt".to_string(), file_path: "/x.txt".to_string() };
    assert_eq!(put_name(&file, &names_here), "x_1.txt");
}

#[test]
fn deleting_shifts_numbered_registers() {
    let mut st = state();
    st.yank_after_delete(&[buf("one")], &[buf("one")], None, false);
    st.yank_after_delete(&[buf("two")], &[buf("two")], None, false);
    let r = &st.registers;
    assert_eq!(names(&r.check_reg(&KeyCode::Char('1')).unwrap()), vec!["two"]);
    assert_eq!(names(&r.check_reg(&KeyCode::Char('2')).unwrap()), vec!["one"]);
    assert_eq!(names(&r.check_reg(&KeyCode::Char('"')).unwrap()), vec!["two"]);
}

#[test]
fn append_to_named_register_by_upper_key() {
    let mut r = Registers::new();
    r.yank_item(&[buf("a")], Some('q'), false);
    r.yank_item(&[buf("b")], Some('q'), true);
    assert_eq!(names(&r.check_reg(&KeyCode::Char('q')).unwrap()), vec!["a", "b"]);
    assert_eq!(names(&r.check_reg(&KeyCode::Char('"')).unwrap()), vec!["b"]);
}

#[test]
fn search_next_and_prev_go_to_matches() {
    let mut st = state();
    st.list = vec![
        item("apple", FileType::File),
        item("banana", FileType::File),
        item("cherry", FileType::File),
        item("pineapple", FileType::File),
    ];
    assert!(!st.search_next());
    st.keyword = Some("apple".to_string());
    assert!(st.search_next());
    assert_eq!(st.layout.nums, Num { index: 3, skip: 3 });
    assert_eq!(st.layout.y, BEGINNING_ROW);
    assert!(!st.search_next());
    assert!(st.search_prev());
    assert_eq!(st.layout.nums.index, 0);
    assert!(!st.search_prev());
}

#[test]
fn headline_fits_the_width() {
    let mut st = state();
    st.current_dir = "/home/user".to_string();
    st.layout.terminal_column = 30;
    assert_eq!(st.headline(), (" /home/user".to_string(), false, Some(19)));
    st.is_ro = true;
    assert_eq!(st.headline(), (" /home/user".to_string(), true, Some(14)));
    st.layout.terminal_column = 8;
    assert_eq!(st.headline(), (" /home/u".to_string(), false, None));
}

#[test]
fn register_keys() {
    assert_eq!(register_key('a'), Some(('a', false)));
    assert_eq!(register_key('z'), Some(('z', false)));
    assert_eq!(register_key('A'), Some(('a', true)));
    assert_eq!(register_key('Q'), Some(('q', true)));
    assert_eq!(register_key('1'), None);
    assert_eq!(register_key('"'), None);
    assert_eq!(register_key('é'), None);
}

#[test]
fn no_trashing_inside_the_trash() {
    let mut st = state();
    st.current_dir = "/home/u/.local/share/felix/Trash".to_string();
    st.trash_dir = "/home/u/.local/share/felix/Trash".to_string();
    assert_eq!(st.may_trash(), Err(FxError::Io("Use `:empty` to delete item in the trash dir.".to_string())));
    st.current_dir = "/home/u".to_string();
    assert_eq!(st.may_trash(), Ok(()));
}

#[test]
fn chdir_drops_forward_history() {
    let mut st = state();
    st.jumplist.list.clear();
    st.jumplist.list.push_back("/c".to_string());
    st.jumplist.list.push_back("/b".to_string());
    st.jumplist.list.push_back("/a".to_string());
    st.jumplist.pos = 1;
    st.current_dir = "/b".to_string();
    st.chdir("/b/x", Move::Down);
    let list: Vec<String> = st.jumplist.list.iter().cloned().collect();
    assert_eq!(list, vec!["/b/x".to_string(), "/b".to_string(), "/a".to_string()]);
    assert_eq!(st.jumplist.pos, 0);
}

#[test]
fn visual_half_pages_extend_the_selection() {
    let mut st = state();
    st.list = (0..40).map(|i| item(&format!("f{}", i), FileType::File)).collect();
    st.layout.terminal_row = 10;
    st.layout.nums = Num { index: 2, skip: 0 };
    st.layout.y = BEGINNING_ROW + 2;
    st.v_start = Some(2);
    st.list[2].selected = true;
    // half of 10 rows: five steps down, each selecting the item reached
    st.half_page_down();
    assert_eq!(st.layout.nums.index, 7);
    let sel: Vec<usize> = (0..40).filter(|&i| st.list[i].selected).collect();
    assert_eq!(sel, vec![2, 3, 4, 5, 6, 7]);
    assert_eq!(st.v_start, Some(2));
    // five steps up: back over the selection, unselecting, then beyond its start
    st.half_page_up();
    assert_eq!(st.layout.nums.index, 2);
    let sel: Vec<usize> = (0..40).filter(|&i| st.list[i].selected).collect();
    assert_eq!(sel, vec![2]);
    st.half_page_up();
    assert_eq!(st.layout.nums.index, 0);
    let sel: Vec<usize> = (0..40).filter(|&i| st.list[i].selected).collect();
    assert_eq!(sel, vec![0, 1, 2]);
}

#[test]
fn going_up_puts_the_cursor_on_the_directory_left() {
    let cases = [
        ("/home/u/docs", Some("docs")),
        ("/home/u/docs/", Some("docs")),
        ("/home/u/docs/.", Some("docs")),
        ("/home/u//docs//", Some("docs")),
        ("/home/u/..", None),
        ("/", None),
    ];
    for (dir, name) in cases {
        let mut st = state();
        st.current_dir = dir.to_string();
        let plan = st.chdir("/home", Move::Up);
        match plan {
            CursorPlan::OnName(n) => assert_eq!(n.as_deref(), name, "{}", dir),
            other => panic!("unexpected {:?}", other),
        }
    }
}

#[test]
fn actions_change_the_state_and_leave_effects() {
    let mut st = state();
    st.list = (0..5).map(|i| item(&format!("f{}", i), FileType::File)).collect();
    st.layout.nums = Num { index: 1, skip: 0 };
    st.layout.y = BEGINNING_ROW + 1;
    // visual mode, then to the bottom: the selection follows
    assert!(matches!(st.apply(Action::ToggleVisual, None), Effect::Redraw));
    assert_eq!(st.v_start, Some(1));
    assert!(matches!(st.apply(Action::GoToBottom, None), Effect::Redraw));
    assert_eq!(st.layout.nums.index, 4);
    let sel: Vec<usize> = (0..5).filter(|&i| st.list[i].selected).collect();
    assert_eq!(sel, vec![1, 2, 3, 4]);
    // search and opening are off in visual mode
    assert!(matches!(st.apply(Action::SearchNext, None), Effect::Nothing));
    assert!(matches!(st.apply(Action::Open, None), Effect::Nothing));
    // yanking into register a (typed "a) takes the selection and leaves visual mode
    match st.apply(Action::Yank, Some('a')) {
        Effect::Yanked(n) => assert_eq!(n, 4),
        other => panic!("unexpected {:?}", other),
    }
    assert!(st.v_start.is_none());
    assert!(st.list.iter().all(|i| !i.selected));
    assert_eq!(st.registers.named.len(), 1);
    // a key that names no register cancels the action
    assert!(matches!(st.apply(Action::Yank, Some('1')), Effect::Nothing));
    // put from register a
    match st.apply(Action::Put, Some('a')) {
        Effect::Put(items) => assert_eq!(items.len(), 4),
        other => panic!("unexpected {:?}", other),
    }
    st.is_ro = true;
    match st.apply(Action::Put, Some('a')) {
        Effect::Warn(m) => assert_eq!(m, "Cannot put into this directory."),
        other => panic!("unexpected {:?}", other),
    }
    match st.apply(Action::Delete, None) {
        Effect::Warn(m) => assert_eq!(m, "Cannot delete item in this directory."),
        other => panic!("unexpected {:?}", other),
    }
    st.is_ro = false;
    match st.apply(Action::Delete, Some('B')) {
        Effect::Delete(t, r, a) => {
            assert_eq!(t.len(), 1);
            assert_eq!(t[0].file_name, "f4");
            assert_eq!((r, a), (Some('b'), true));
        }
        other => panic!("unexpected {:?}", other),
    }
    // hiding resets the cursor and asks for the directory to be read again
    assert!(matches!(st.apply(Action::ToggleHidden, None), Effect::Relist));
    assert_eq!((st.layout.nums.index, st.layout.y), (0, BEGINNING_ROW));
    assert!(matches!(st.apply(Action::EnterSearch, None), Effect::Prompt(PromptKind::Search)));
    match st.apply(Action::Undo, None) {
        Effect::Info(m) => assert_eq!(m, "No operations left."),
        other => panic!("unexpected {:?}", other),
    }
    st.match_vim_exit_behavior = false;
    assert!(matches!(st.apply(Action::Quit, None), Effect::Quit(false)));
    assert!(matches!(st.apply(Action::QuitWithoutSave, None), Effect::Quit(true)));
}

#[test]
fn cursor_below_the_list_goes_back_to_the_top() {
    let mut st = state();
    st.list = (0..3).map(|i| item(&format!("f{}", i), FileType::File)).collect();
    st.layout.nums = Num { index: 5, skip: 2 };
    st.layout.y = BEGINNING_ROW + 3;
    assert!(st.keep_cursor_in_bounds());
    assert_eq!((st.layout.nums.index, st.layout.nums.skip, st.layout.y), (0, 0, BEGINNING_ROW));
    assert!(!st.keep_cursor_in_bounds());
}

#[test]
fn a_new_configuration_is_taken() {
    let mut st = state();
    st.current_dir = "/tmp".to_string();
    let c = Config {
        default: None,
        match_vim_exit_behavior: Some(true),
        exec_config: Some(vec![("mpv".to_string(), vec!["MP4".to_string()])]),
        color: None,
    };
    st.set_config(c, "nano".to_string());
    assert_eq!(st.default, "nano");
    assert!(st.match_vim_exit_behavior);
    let m = st.commands.as_ref().unwrap();
    assert_eq!(m.get("mp4"), Some("mpv".to_string()));
    assert_eq!(m.get("png"), None);
    assert_eq!(st.current_dir, "/tmp");
}

#[test]
fn cursor_settles_after_reload_delete_and_chdir() {
    let mut st = state();
    st.list = (0..3).map(|i| item(&format!("f{}", i), FileType::File)).collect();
    // the list got shorter under the cursor: it goes to the last item
    st.layout.nums = Num { index: 5, skip: 0 };
    st.layout.y = BEGINNING_ROW + 5;
    st.settle_after_reload();
    assert_eq!((st.layout.nums.index, st.layout.y), (2, BEGINNING_ROW + 2));
    // after deleting the last item, the cursor goes up one
    st.layout.nums = Num { index: 3, skip: 0 };
    st.layout.y = BEGINNING_ROW + 3;
    st.settle_after_delete(false);
    assert_eq!((st.layout.nums.index, st.layout.y), (2, BEGINNING_ROW + 2));
    // entering a directory with the cursor on a named entry
    st.settle_after_chdir(CursorPlan::OnName(Some("f1".to_string())));
    assert_eq!((st.layout.nums.index, st.layout.y), (1, BEGINNING_ROW + 1));
    // a remembered row beyond the list falls back to the top
    st.settle_after_chdir(CursorPlan::Restore(BEGINNING_ROW + 9));
    assert_eq!((st.layout.nums.index, st.layout.y), (0, BEGINNING_ROW));
}

#[test]
fn split_toggled_twice_is_back() {
    let mut st = state();
    let before = st.layout.split;
    assert!(matches!(st.apply(Action::ToggleSplit, None), Effect::Relayout));
    assert_ne!(st.layout.split, before);
    st.apply(Action::ToggleSplit, None);
    assert_eq!(st.layout.split, before);
}
