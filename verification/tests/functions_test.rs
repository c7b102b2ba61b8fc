use felix::functions::{
    convert_to_permissions, display_count, format_time, format_txt, list_up_contents, rename_dir,
    rename_file, shorten_str_including_wide_char, split_lines_including_wide_char, to_extension_map,
    to_proper_size,
};

#[test]
fn test_format_time() {
    let time1 = Some("1970-01-01 00:00:00".to_string());
    let time2 = None;
    assert_eq!(format_time(&time1), "1970-01-01 00:00".to_string());
    assert_eq!(format_time(&time2), "".to_string());
}

#[test]
fn test_display_count() {
    assert_eq!(display_count(1, 4), "2/4".to_string());
}

#[test]
fn test_proper_size() {
    assert_eq!(to_proper_size(50), "50B".to_string());
    assert_eq!(to_proper_size(2000), "2KB".to_string());
    assert_eq!(to_proper_size(3000000), "3MB".to_string());
    assert_eq!(to_proper_size(6000000000), "6GB".to_string());
}

#[test]
fn test_convert_to_permissions() {
    let file = 33188;
    let dir = 16877;
    assert_eq!(&convert_to_permissions(file), "644");
    assert_eq!(&convert_to_permissions(dir), "755");
}

#[test]
fn test_split_str_including_wide_char() {
    let teststr = "Ｈｅｌｌｏ, ｗｏｒｌｄ!";
    assert_eq!(
        "Ｈｅｌｌｏ, ｗｏｒｌ".to_owned(),
        shorten_str_including_wide_char(teststr, 20)
    );
    assert_eq!(
        "Ｈｅｌｌｏ".to_owned(),
        shorten_str_including_wide_char(teststr, 10)
    );
    assert_eq!(
        "Ｈｅｌｌｏ, ｗ".to_owned(),
        shorten_str_including_wide_char(teststr, 15)
    );
}

#[test]
fn test_list_up_contents() {
    // the entries of ./testfiles: three directories, no files
    let dirs = vec![
        "permission_test".to_string(),
        "archives".to_string(),
        "images".to_string(),
    ];
    let tree = list_up_contents(dirs, vec![], 20);
    assert_eq!(tree, "├ archives\n├ images\n└ permission_test".to_string());
}

#[test]
fn list_up_contents_orders_numbers_naturally_and_dirs_first() {
    let dirs = vec!["d10".to_string(), "d9".to_string()];
    let files = vec!["f2".to_string(), "f1".to_string()];
    let tree = list_up_contents(dirs, files, 20);
    assert_eq!(tree, "├ d9\n├ d10\n├ f1\n└ f2".to_string());
}

#[test]
fn list_up_contents_shortens_last_line() {
    let tree = list_up_contents(vec![], vec!["abcdefgh".to_string()], 5);
    assert_eq!(tree, "└ abc".to_string());
    assert_eq!(list_up_contents(vec![], vec![], 5), "".to_string());
}

#[test]
fn format_time_edge_cases() {
    assert_eq!(
        format_time(&Some("2024-03-09T17:05:44+09:00".to_string())),
        "2024-03-09 17:05".to_string()
    );
    // The cut is made at byte offsets, which may hold multi-byte characters.
    assert_eq!(
        format_time(&Some("日本語aT12:34+00".to_string())),
        "日本語a 12:34".to_string()
    );
}

#[test]
fn proper_size_unit_boundaries() {
    assert_eq!(to_proper_size(0), "0B");
    assert_eq!(to_proper_size(999), "999B");
    assert_eq!(to_proper_size(1000), "1KB");
    assert_eq!(to_proper_size(999_999), "999KB");
    assert_eq!(to_proper_size(1_000_000), "1MB");
    assert_eq!(to_proper_size(999_999_999), "999MB");
    assert_eq!(to_proper_size(1_000_000_000), "1GB");
}

#[test]
fn permissions_short_modes() {
    assert_eq!(convert_to_permissions(0), "0");
    assert_eq!(convert_to_permissions(7), "7");
    assert_eq!(convert_to_permissions(0o1777), "777");
}

#[test]
fn display_count_first_of_one() {
    assert_eq!(display_count(0, 1), "1/1");
    assert_eq!(display_count(9, 10), "10/10");
}

#[test]
fn rename_dir_picks_first_free_name() {
    let names = vec!["a".to_string(), "a_0".to_string()];
    assert_eq!(rename_dir("b", &names), "b");
    assert_eq!(rename_dir("a", &names), "a_1");
}

#[test]
fn rename_file_keeps_extension() {
    let names = vec!["x.txt".to_string(), "x_0.txt".to_string()];
    assert_eq!(rename_file("x.txt", &names), "x_1.txt");
    assert_eq!(rename_file("y.txt", &names), "y.txt");
    let plain = vec!["Makefile".to_string()];
    assert_eq!(rename_file("Makefile", &plain), "Makefile_1");
}

#[test]
fn split_lines_breaks_at_newline_and_width() {
    let lines = split_lines_including_wide_char("abc\ndefgh", 3);
    assert_eq!(lines, vec!["abc".to_string(), "def".to_string(), "gh".to_string()]);
    let wide = split_lines_including_wide_char("ＡＢＣ", 4);
    assert_eq!(wide, vec!["ＡＢ".to_string(), "Ｃ".to_string()]);
}

#[test]
fn format_txt_appends_back_line_for_help() {
    let plain = format_txt("ab", 10, false);
    assert_eq!(plain, vec!["ab".to_string()]);
    let help = format_txt("ab", 10, true);
    assert_eq!(help, vec!["ab".to_string(), "Press Enter to go back.".to_string()]);
}

#[test]
fn extension_map_from_config() {
    assert!(to_extension_map(&None).is_none());
    let config = Some(vec![
        ("feh".to_string(), vec!["jpg".to_string(), "PNG".to_string()]),
        ("vim".to_string(), vec!["txt".to_string(), "jpg".to_string()]),
    ]);
    let map = to_extension_map(&config).unwrap();
    assert_eq!(map.get("txt"), Some("vim".to_string()));
    // a later command wins for an extension listed twice
    assert_eq!(map.get("jpg"), Some("vim".to_string()));
    // extensions are matched in lower case
    assert_eq!(map.get("png"), Some("feh".to_string()));
    assert_eq!(map.get("rs"), None);
}
