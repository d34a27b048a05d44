use animamac::paths::{config_file, Platform};
use animamac::workshop::{
    collect_download, download_args, extract_workshop_id, listing_entry, plan_entry, webp_name,
    workshop_dir, EntryPlan,
};

#[test]
fn extract_id_numeric() {
    assert_eq!(extract_workshop_id("123"), "123");
}

#[test]
fn extract_id_query_parameter() {
    assert_eq!(extract_workshop_id("https://x.example/item?id=987&foo=1"), "987");
}

#[test]
fn extract_id_later_query_parameter() {
    assert_eq!(extract_workshop_id("https://x.example/item?foo=1&id=42"), "42");
}

#[test]
fn extract_id_last_segment() {
    assert_eq!(extract_workshop_id("https://x.example/item/555"), "555");
}

#[test]
fn extract_id_garbage_passes_through() {
    assert_eq!(extract_workshop_id("garbage"), "garbage");
}

#[test]
fn extract_id_trims_whitespace() {
    assert_eq!(extract_workshop_id("  123\n"), "123");
    assert_eq!(extract_workshop_id(" garbage "), "garbage");
}

#[test]
fn extract_id_empty_input() {
    assert_eq!(extract_workshop_id(""), "");
}

#[test]
fn extract_id_segment_digits_only() {
    assert_eq!(extract_workshop_id("https://x.example/item/ab5c6"), "56");
}

fn plan_names(dir: &str, names: &[&str]) -> Vec<EntryPlan> {
    names.iter().map(|n| plan_entry(dir, n)).collect()
}

#[test]
fn workshop_validity_filter() {
    let names = ["a.PNG", ".hidden.png", "ds_store", "b.mp4", "c.apng"];
    let plans = plan_names("/ws/77", &names);
    assert!(matches!(plans[0], EntryPlan::Keep { .. }));
    assert!(matches!(plans[1], EntryPlan::Skip));
    assert!(matches!(plans[2], EntryPlan::Skip));
    assert!(matches!(plans[3], EntryPlan::Skip));
    match &plans[4] {
        EntryPlan::Convert { input, output, name } => {
            assert_eq!(input, "/ws/77/c.apng");
            assert_eq!(output, "/ws/77/c.webp");
            assert_eq!(name, "c.webp");
        }
        _ => panic!("c.apng must be converted"),
    }
    let converted = vec![true; plans.len()];
    let result = collect_download("/ws/77", &plans, &converted).expect("files remain");
    assert_eq!(result.path, "/ws/77");
    assert_eq!(result.files, vec!["a.PNG".to_string(), "c.webp".to_string()]);
}

#[test]
fn failed_conversion_drops_entry() {
    let plans = plan_names("/ws/1", &["c.apng", "d.gif"]);
    let converted = vec![false, false];
    let result = collect_download("/ws/1", &plans, &converted).expect("gif remains");
    assert_eq!(result.files, vec!["d.gif".to_string()]);
}

#[test]
fn nothing_valid_fails() {
    let plans = plan_names("/ws/1", &["readme.txt", ".DS_Store", "c.apng"]);
    let converted = vec![false, false, false];
    assert!(collect_download("/ws/1", &plans, &converted).is_none());
}

#[test]
fn metadata_file_name_rejected_in_any_case() {
    assert!(matches!(plan_entry("/d", "DS_Store"), EntryPlan::Skip));
}

#[test]
fn webp_name_strips_exact_apng_suffix() {
    assert_eq!(webp_name("walk.apng"), "walk.webp");
    assert_eq!(webp_name("walk.apng.apng"), "walk.webp");
    assert_eq!(webp_name("WALK.APNG"), "WALK.APNG.webp");
}

#[test]
fn listing_skips_denylisted_suffixes() {
    let deny = vec!["_still.png".to_string()];
    assert_eq!(listing_entry("12", "idle.gif", &deny), Some("12/idle.gif".to_string()));
    assert_eq!(listing_entry("12", "idle_still.png", &deny), None);
    assert_eq!(listing_entry("12", "notes.txt", &deny), None);
    assert_eq!(listing_entry("12", ".x.png", &Vec::new()), None);
}

#[test]
fn download_arguments() {
    let args = download_args("480", "987");
    assert_eq!(
        args,
        vec!["+login", "anonymous", "+workshop_download_item", "480", "987", "+quit"]
    );
}

#[test]
fn workshop_directory_per_platform() {
    assert_eq!(
        workshop_dir(Platform::Other, Some("/home/u".to_string()), "480"),
        "/home/u/.local/share/Steam/steamapps/workshop/content/480"
    );
    assert_eq!(
        workshop_dir(Platform::MacOs, Some("/Users/u".to_string()), "480"),
        "/Users/u/Library/Application Support/Steam/steamapps/workshop/content/480"
    );
    assert_eq!(
        workshop_dir(Platform::Windows, Some("C:\\Users\\u".to_string()), "480"),
        "C:\\Program Files (x86)\\Steam\\steamapps\\workshop\\content\\480"
    );
    assert_eq!(workshop_dir(Platform::Other, None, "480"), ".");
}

#[test]
fn config_file_locations() {
    assert_eq!(config_file(Platform::Other, "/home/u", "library.json"), "/home/u/.config/animatux/library.json");
    assert_eq!(
        config_file(Platform::MacOs, "/Users/u", "settings.json"),
        "/Users/u/Library/Application Support/AnimaMac/settings.json"
    );
}
