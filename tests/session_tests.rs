use animamac::library::CharacterLibrary;
use animamac::session::{
    enable_added, enabled_indices, remove_entry, session_key, toggle_character, window_closed,
    Shell,
};

fn library_of(paths: &[&str]) -> CharacterLibrary {
    let mut lib = CharacterLibrary::new();
    for p in paths {
        lib.add_named_character(p, "x");
    }
    lib
}

#[test]
fn session_key_from_path() {
    assert_eq!(session_key("/m/a.png"), "character:/m/a.png");
}

#[test]
fn reenabling_keeps_window_identity() {
    let mut lib = library_of(&["/m/a.png", "/m/b.png"]);
    let mut shell = Shell::new();
    assert!(toggle_character(&mut lib, &mut shell, 1));
    let first = shell.sessions[shell.find_session("/m/b.png").unwrap()].key.clone();
    assert!(toggle_character(&mut lib, &mut shell, 1));
    assert!(shell.find_session("/m/b.png").is_none());
    assert!(!lib.characters[1].enabled);
    assert!(toggle_character(&mut lib, &mut shell, 1));
    let second = shell.sessions[shell.find_session("/m/b.png").unwrap()].key.clone();
    assert_eq!(first, second);
    assert_eq!(first, "character:/m/b.png");
}

#[test]
fn identity_survives_reordering() {
    let mut lib = library_of(&["/m/a.png", "/m/b.png"]);
    let mut shell = Shell::new();
    toggle_character(&mut lib, &mut shell, 1);
    let before = shell.sessions[0].key.clone();
    assert!(remove_entry(&mut lib, &mut shell, 0));
    assert_eq!(lib.characters[0].path, "/m/b.png");
    assert_eq!(shell.sessions[shell.find_session("/m/b.png").unwrap()].key, before);
}

#[test]
fn main_close_hides_until_exit() {
    let mut shell = Shell::new();
    assert!(shell.main_visible);
    assert!(!shell.main_close_requested());
    assert!(!shell.main_visible);
    shell.exit_requested();
    assert!(shell.main_close_requested());
}

#[test]
fn toggle_main_flips_visibility() {
    let mut shell = Shell::new();
    assert!(!shell.toggle_main());
    assert!(shell.toggle_main());
    assert!(shell.main_visible);
}

#[test]
fn settings_panel_toggles() {
    let mut shell = Shell::new();
    assert!(!shell.show_settings("/m/a.png"));
    shell.toggle_settings("/m/a.png");
    assert!(shell.show_settings("/m/a.png"));
    shell.toggle_settings("/m/a.png");
    assert!(!shell.show_settings("/m/a.png"));
}

#[test]
fn closing_window_disables_and_clears_active() {
    let mut lib = library_of(&["/m/a.png"]);
    let mut shell = Shell::new();
    assert!(enable_added(&mut lib, &mut shell, "/m/a.png"));
    assert!(lib.characters[0].enabled);
    assert_eq!(shell.active_character.as_deref(), Some("/m/a.png"));
    assert!(window_closed(&mut lib, &mut shell, 0));
    assert!(!lib.characters[0].enabled);
    assert!(shell.active_character.is_none());
    assert!(shell.sessions.is_empty());
    assert!(!window_closed(&mut lib, &mut shell, 3));
}

#[test]
fn enable_unknown_path_does_nothing() {
    let mut lib = library_of(&["/m/a.png"]);
    let mut shell = Shell::new();
    assert!(!enable_added(&mut lib, &mut shell, "/m/zzz.png"));
    assert!(shell.sessions.is_empty());
    assert!(shell.active_character.is_none());
}

#[test]
fn enabled_windows_in_library_order() {
    let mut lib = library_of(&["/m/a.png", "/m/b.png", "/m/c.png"]);
    let mut shell = Shell::new();
    toggle_character(&mut lib, &mut shell, 2);
    toggle_character(&mut lib, &mut shell, 0);
    assert_eq!(enabled_indices(&lib), vec![0, 2]);
    assert!(!toggle_character(&mut lib, &mut shell, 7));
}
