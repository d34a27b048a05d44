use animamac::library::{CharacterLibrary, WindowPoint, SCALE_ONE};

fn paths(lib: &CharacterLibrary) -> Vec<String> {
    lib.characters.iter().map(|c| c.path.clone()).collect()
}

fn point(x: f32, y: f32) -> WindowPoint {
    WindowPoint { x: x.to_bits(), y: y.to_bits() }
}

#[test]
fn add_named_defaults() {
    let mut lib = CharacterLibrary::new();
    assert!(lib.add_named_character("/m/cat.gif", "Kitty"));
    let c = &lib.characters[0];
    assert_eq!(c.name, "Kitty");
    assert_eq!(c.path, "/m/cat.gif");
    assert!(!c.enabled);
    assert_eq!(c.speed, 0);
    assert_eq!(f32::from_bits(c.scale), 1.0);
    assert_eq!(c.scale, SCALE_ONE);
    assert!(c.window_pos.is_none());
    assert!(c.window_size.is_none());
}

#[test]
fn adds_never_duplicate_paths() {
    let mut lib = CharacterLibrary::new();
    assert!(lib.add_named_character("/m/a.png", "A"));
    assert!(!lib.add_named_character("/m/a.png", "Again"));
    assert!(!lib.add_character("/m/a.png", None));
    assert!(lib.add_character("/m/b.webp", None));
    assert!(!lib.add_character("/m/b.webp", None));
    assert_eq!(paths(&lib), vec!["/m/a.png".to_string(), "/m/b.webp".to_string()]);
    assert_eq!(lib.characters[0].name, "A");
}

#[test]
fn invalid_extension_rejected() {
    let mut lib = CharacterLibrary::new();
    assert!(!lib.add_character("/m/clip.mp4", None));
    assert!(!lib.add_named_character("/m/clip.mp4", "Clip"));
    assert_eq!(lib.len(), 0);
}

#[test]
fn add_derives_name_from_stem() {
    let mut lib = CharacterLibrary::new();
    assert!(lib.add_character("/m/dancing.GIF", None));
    assert_eq!(lib.characters[0].name, "dancing");
}

#[test]
fn failed_conversion_keeps_original_path() {
    let mut lib = CharacterLibrary::new();
    assert!(lib.add_character("/m/walk.apng", None));
    assert_eq!(lib.characters[0].path, "/m/walk.apng");
    assert_eq!(lib.characters[0].name, "walk");
}

#[test]
fn successful_conversion_stores_converted_path() {
    let mut lib = CharacterLibrary::new();
    assert!(lib.add_character("/m/walk.apng", Some("/m/walk.webp".to_string())));
    assert_eq!(lib.characters[0].path, "/m/walk.webp");
    assert_eq!(lib.index_by_path("/m/walk.webp"), Some(0));
    assert_eq!(lib.index_by_path("/m/walk.apng"), None);
}

#[test]
fn conversion_result_ignored_for_other_formats() {
    let mut lib = CharacterLibrary::new();
    assert!(lib.add_character("/m/run.png", Some("/m/other.webp".to_string())));
    assert_eq!(lib.characters[0].path, "/m/run.png");
}

#[test]
fn out_of_range_mutators_change_nothing() {
    let mut lib = CharacterLibrary::new();
    lib.add_named_character("/m/a.png", "A");
    lib.set_enabled(0, true);
    let before = format!("{:?}", lib.characters);
    assert!(!lib.remove_character(1));
    assert!(!lib.set_enabled(5, false));
    assert!(!lib.update_settings(1, 30, 2.0f32.to_bits()));
    assert!(!lib.update_position(9, point(1.0, 2.0)));
    assert!(!lib.record_position(9, point(1.0, 2.0)));
    assert_eq!(format!("{:?}", lib.characters), before);
}

#[test]
fn mutators_in_range() {
    let mut lib = CharacterLibrary::new();
    lib.add_named_character("/m/a.png", "A");
    lib.add_named_character("/m/b.png", "B");
    assert!(lib.set_enabled(1, true));
    assert!(lib.characters[1].enabled);
    assert!(lib.update_settings(1, 24, 2.5f32.to_bits()));
    assert_eq!(lib.characters[1].speed, 24);
    assert_eq!(f32::from_bits(lib.characters[1].scale), 2.5);
    assert!(lib.update_position(1, point(10.0, 20.5)));
    assert_eq!(lib.characters[1].window_pos, Some(point(10.0, 20.5)));
    assert!(lib.remove_character(0));
    assert_eq!(paths(&lib), vec!["/m/b.png".to_string()]);
    assert_eq!(lib.index_by_path("/m/b.png"), Some(0));
}

#[test]
fn unchanged_position_written_once() {
    let mut lib = CharacterLibrary::new();
    lib.add_named_character("/m/a.png", "A");
    let mut writes = 0;
    for _ in 0..10 {
        if lib.record_position(0, point(300.0, 150.0)) {
            writes += 1;
        }
    }
    assert_eq!(writes, 1);
    assert!(lib.record_position(0, point(301.0, 150.0)));
    assert_eq!(lib.characters[0].window_pos, Some(point(301.0, 150.0)));
}

#[test]
fn empty_library_lookups() {
    let lib = CharacterLibrary::new();
    assert_eq!(lib.index_by_path("/m/a.png"), None);
    assert_eq!(lib.len(), 0);
}

#[test]
fn settings_defaults() {
    let s = animamac::settings::AppSettings::default();
    assert!(s.current_image_path.is_none());
    assert_eq!(s.speed, 0);
    assert_eq!(f32::from_bits(s.image_scale), 1.0);
    assert_eq!(f32::from_bits(s.window_width), 400.0);
    assert_eq!(f32::from_bits(s.window_height), 520.0);
}

#[test]
fn default_library_is_empty() {
    assert_eq!(CharacterLibrary::default().len(), 0);
}
