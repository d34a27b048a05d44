use animamac::convert::{
    assemble_args, command_candidates, demux_args, frame_pattern, pick_command, select_frames,
    str_lex_le, transcode_args, webp_sibling_path,
};
use animamac::media::{has_media_extension_of, is_valid_media_file, needs_conversion};

#[test]
fn media_extensions_ignore_case() {
    assert!(has_media_extension_of("/x/a.PNG"));
    assert!(has_media_extension_of("/x/a.Gif"));
    assert!(has_media_extension_of("/x/a.webp"));
    assert!(has_media_extension_of("/x/a.APNG"));
    assert!(!has_media_extension_of("/x/a.mp4"));
    assert!(!has_media_extension_of("/x/png"));
}

#[test]
fn valid_media_file_rules() {
    assert!(is_valid_media_file("a.PNG"));
    assert!(!is_valid_media_file(".hidden.png"));
    assert!(!is_valid_media_file("ds_store"));
    assert!(!is_valid_media_file("b.mp4"));
    assert!(is_valid_media_file("c.apng"));
}

#[test]
fn conversion_needed_only_for_apng() {
    assert!(needs_conversion("/x/a.ApNg"));
    assert!(!needs_conversion("/x/a.png"));
}

#[test]
fn sibling_webp_path() {
    assert_eq!(webp_sibling_path("/a/b/c.apng"), Some("/a/b/c.webp".to_string()));
    assert_eq!(webp_sibling_path("c.apng"), Some("c.webp".to_string()));
    assert_eq!(webp_sibling_path("/"), None);
}

#[test]
fn frames_selected_and_ordered() {
    let entries = vec![
        "/t/f010.png".to_string(),
        "/t/f002.png".to_string(),
        "/t/notes.txt".to_string(),
        "/t/f001.png".to_string(),
        "/t/f003.PNG".to_string(),
    ];
    assert_eq!(
        select_frames(&entries),
        vec!["/t/f001.png".to_string(), "/t/f002.png".to_string(), "/t/f010.png".to_string()]
    );
    assert!(select_frames(&vec!["/t/x.txt".to_string()]).is_empty());
}

#[test]
fn lexicographic_order() {
    assert!(str_lex_le("f001", "f002"));
    assert!(str_lex_le("f00", "f001"));
    assert!(!str_lex_le("f010", "f009"));
    assert!(str_lex_le("", ""));
}

#[test]
fn tool_arguments() {
    assert_eq!(demux_args("/in.apng", "/t/f%03d.png"), vec!["-y", "-i", "/in.apng", "/t/f%03d.png"]);
    let frames = vec!["/t/f001.png".to_string(), "/t/f002.png".to_string()];
    assert_eq!(
        assemble_args(&frames, "/out.webp"),
        vec!["/t/f001.png", "/t/f002.png", "-o", "/out.webp"]
    );
    let t = transcode_args("/in.apng", "/out.webp");
    assert_eq!(t.len(), 12);
    assert_eq!(t[4], "libwebp");
    assert_eq!(t[11], "/out.webp");
    assert_eq!(frame_pattern("/tmp/x"), "/tmp/x/f%03d.png");
}

#[test]
fn command_resolution() {
    let c = command_candidates("ffmpeg");
    assert_eq!(c, vec!["/opt/homebrew/bin/ffmpeg", "/usr/local/bin/ffmpeg", "/usr/bin/ffmpeg"]);
    assert_eq!(
        pick_command(&c, &vec![false, true, true], Some("/other/ffmpeg".to_string())),
        Some("/usr/local/bin/ffmpeg".to_string())
    );
    assert_eq!(
        pick_command(&c, &vec![false, false, false], Some("/other/ffmpeg".to_string())),
        Some("/other/ffmpeg".to_string())
    );
    assert_eq!(pick_command(&c, &vec![false, false, false], Some(String::new())), None);
    assert_eq!(pick_command(&c, &vec![false, false, false], None), None);
}
