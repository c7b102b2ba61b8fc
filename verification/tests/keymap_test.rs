use felix::keymap::{
    parse_action, parse_chord, Action, Key, KeyChord, KeyCode, KeyState, Keymap, Resolved, MOD_ALT,
    MOD_CONTROL, MOD_SHIFT,
};

fn c(ch: char) -> Key {
    Key::plain(KeyCode::Char(ch))
}

#[test]
fn parse_single_char() {
    assert_eq!(parse_chord("j").unwrap(), KeyChord(vec![c('j')]));
}

#[test]
fn parse_multi_char_chord() {
    assert_eq!(parse_chord("gg").unwrap(), KeyChord(vec![c('g'), c('g')]));
    assert_eq!(parse_chord("ge").unwrap(), KeyChord(vec![c('g'), c('e')]));
    assert_eq!(parse_chord("ZZ").unwrap(), KeyChord(vec![c('Z'), c('Z')]));
}

#[test]
fn parse_ctrl() {
    assert_eq!(
        parse_chord("C-d").unwrap(),
        KeyChord(vec![Key {
            code: KeyCode::Char('d'),
            mods: MOD_CONTROL
        }])
    );
}

#[test]
fn parse_alt_and_special() {
    assert_eq!(
        parse_chord("A-j").unwrap(),
        KeyChord(vec![Key {
            code: KeyCode::Char('j'),
            mods: MOD_ALT
        }])
    );
    assert_eq!(
        parse_chord("Enter").unwrap(),
        KeyChord(vec![Key::plain(KeyCode::Enter)])
    );
    assert_eq!(
        parse_chord("Tab").unwrap(),
        KeyChord(vec![Key::plain(KeyCode::Tab)])
    );
}

#[test]
fn shift_normalized_away_for_chars() {
    let k = Key::from_event(KeyCode::Char('G'), MOD_SHIFT);
    assert_eq!(k, c('G'));
}

#[test]
fn default_resolves_simple_and_chords() {
    let km = Keymap::default_keymap();
    assert_eq!(
        km.resolve(&[c('j')], false),
        Resolved::Action(Action::MoveDown)
    );
    assert_eq!(
        km.resolve(&[c('G')], false),
        Resolved::Action(Action::GoToBottom)
    );
    // gg is a chord: first g is a prefix, gg is the action.
    assert_eq!(km.resolve(&[c('g')], false), Resolved::Prefix);
    assert_eq!(
        km.resolve(&[c('g'), c('g')], false),
        Resolved::Action(Action::GoToTop)
    );
    // dead end
    assert_eq!(km.resolve(&[c('g'), c('x')], false), Resolved::Nothing);
    assert_eq!(km.resolve(&[c('q')], false), Resolved::Nothing);
}

#[test]
fn user_can_add_ge_binding() {
    let mut km = Keymap::default_keymap();
    km.insert(parse_chord("ge").unwrap(), Action::GoToBottom);
    assert_eq!(km.resolve(&[c('g')], false), Resolved::Prefix);
    assert_eq!(
        km.resolve(&[c('g'), c('e')], false),
        Resolved::Action(Action::GoToBottom)
    );
    // existing gg still works
    assert_eq!(
        km.resolve(&[c('g'), c('g')], false),
        Resolved::Action(Action::GoToTop)
    );
}

#[test]
fn ctrl_and_alt_do_not_collide_with_plain() {
    let km = Keymap::default_keymap();
    let ctrl_d = Key {
        code: KeyCode::Char('d'),
        mods: MOD_CONTROL,
    };
    assert_eq!(
        km.resolve(&[ctrl_d], false),
        Resolved::Action(Action::HalfPageDown)
    );
    let alt_down = Key {
        code: KeyCode::Down,
        mods: MOD_ALT,
    };
    assert_eq!(
        km.resolve(&[alt_down], false),
        Resolved::Action(Action::ScrollPreviewDown)
    );
    let plain_down = Key::plain(KeyCode::Down);
    assert_eq!(
        km.resolve(&[plain_down], false),
        Resolved::Action(Action::MoveDown)
    );
}

#[test]
fn parse_action_names() {
    assert_eq!(parse_action("go_to_bottom"), Some(Action::GoToBottom));
    assert_eq!(parse_action("half_page_down"), Some(Action::HalfPageDown));
    assert_eq!(parse_action("toggle_hidden"), Some(Action::ToggleHidden));
    assert_eq!(parse_action("not_an_action"), None);
}

#[test]
fn from_config_overlays_defaults() {
    // the bindings in the order of their keys, as a sorted map gives them
    let bindings = vec![
        ("ge".to_string(), "go_to_bottom".to_string()),
        // Invalid entries are skipped, not fatal.
        ("zz_bad".to_string(), "not_an_action".to_string()),
    ];
    let km = Keymap::from_config(&bindings);
    // User binding is active.
    assert_eq!(
        km.resolve(&[c('g'), c('e')], false),
        Resolved::Action(Action::GoToBottom)
    );
    // Built-in bindings remain intact.
    assert_eq!(
        km.resolve(&[c('g'), c('g')], false),
        Resolved::Action(Action::GoToTop)
    );
    assert_eq!(km.resolve(&[c('g')], false), Resolved::Prefix);
}

#[test]
fn visual_mode_d_and_y_are_single_press() {
    let km = Keymap::default_keymap();
    // In normal mode, d is a prefix (dd chord).
    assert_eq!(km.resolve(&[c('d')], false), Resolved::Prefix);
    assert_eq!(km.resolve(&[c('y')], false), Resolved::Prefix);
    // In visual mode, a single d/y fires immediately.
    assert_eq!(
        km.resolve(&[c('d')], true),
        Resolved::Action(Action::Delete)
    );
    assert_eq!(km.resolve(&[c('y')], true), Resolved::Action(Action::Yank));
    // Movement chords still resolve the same in visual mode.
    assert_eq!(km.resolve(&[c('g')], true), Resolved::Prefix);
    assert_eq!(
        km.resolve(&[c('g'), c('g')], true),
        Resolved::Action(Action::GoToTop)
    );
}

#[test]
fn parse_chord_errors() {
    assert!(parse_chord("").is_err());
    // a dangling modifier is read as plain keys
    assert_eq!(parse_chord("C-").unwrap(), KeyChord(vec![c('C'), c('-')]));
    // an unknown modifier names no key either
    assert_eq!(parse_chord("X-y").unwrap(), KeyChord(vec![c('X'), c('-'), c('y')]));
}

#[test]
fn later_binding_overrides_earlier() {
    let mut km = Keymap::default_keymap();
    km.insert(parse_chord("j").unwrap(), Action::MoveUp);
    assert_eq!(km.resolve(&[c('j')], false), Resolved::Action(Action::MoveUp));
}

#[test]
fn parse_action_reads_yaml_scalars() {
    assert_eq!(parse_action("  quit "), Some(Action::Quit));
    assert_eq!(parse_action("'quit'"), Some(Action::Quit));
    assert_eq!(parse_action("\"move_down\"\n"), Some(Action::MoveDown));
    assert_eq!(parse_action("' move_down '"), None);
    assert_eq!(parse_action("'quit\""), None);
    assert_eq!(parse_action("''"), None);
    assert_eq!(parse_action("go_to_bottom # note"), Some(Action::GoToBottom));
}

#[test]
fn key_loop_with_register_prefix() {
    let km = Keymap::default_keymap();
    let mut keys = KeyState::new();
    // "Ayy: yank, appending to register a (the register key as typed)
    assert_eq!(keys.feed(&km, c('"'), false), None);
    assert!(keys.awaiting_register);
    assert_eq!(keys.feed(&km, c('A'), false), None);
    assert_eq!(keys.feed(&km, c('y'), false), None);
    assert_eq!(keys.feed(&km, c('y'), false), Some((Action::Yank, Some('A'))));
    assert!(keys.pending.is_empty());
    assert_eq!(keys.register, None);
    // a plain action uses no register
    assert_eq!(keys.feed(&km, c('j'), false), Some((Action::MoveDown, None)));
    // a dead end drops the register key
    keys.feed(&km, c('"'), false);
    keys.feed(&km, c('b'), false);
    assert_eq!(keys.feed(&km, Key::plain(KeyCode::F(9)), false), None);
    assert_eq!(keys.register, None);
    // in visual mode a single y yanks
    assert_eq!(keys.feed(&km, c('y'), true), Some((Action::Yank, None)));
}
