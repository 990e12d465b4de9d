use chromash::color::{ColorMode, SchemeType};
use chromash::error::ChromashError;
use chromash::options::ThemeOptions;
use chromash::apply::PresetStep;
use chromash::store::{ChromashApi, PresetEntry, Record};
use chromash::theme::{CurrentTheme, PresetMetadata, ThemeSource};

fn preset(name: &str, modified: u64) -> PresetMetadata {
    PresetMetadata {
        name: name.to_string(),
        created: modified,
        modified,
        source: None,
        wallpaper: None,
    }
}

fn entry(dir: &str, record: Record) -> PresetEntry {
    PresetEntry { dir: dir.to_string(), record }
}

fn names(api: &ChromashApi) -> Vec<String> {
    api.list_presets().into_iter().map(|p| p.name).collect()
}

fn dirs(api: &ChromashApi) -> Vec<String> {
    api.presets.iter().map(|e| e.dir.clone()).collect()
}

fn png(width: u32, height: u32, color: [u8; 3]) -> Vec<u8> {
    let img = image::RgbImage::from_pixel(width, height, image::Rgb(color));
    let mut bytes = std::io::Cursor::new(Vec::new());
    img.write_to(&mut bytes, image::ImageFormat::Png).unwrap();
    bytes.into_inner()
}

fn same_theme(a: &Option<CurrentTheme>, b: &Option<CurrentTheme>) -> bool {
    match (a, b) {
        (None, None) => true,
        (Some(x), Some(y)) => {
            x.source == y.source && x.timestamp == y.timestamp && x.preset_name == y.preset_name
        }
        _ => false,
    }
}

#[test]
fn a_new_manager_is_empty() {
    let api = ChromashApi::new();
    assert!(api.load_current_theme().is_none());
    assert!(api.list_presets().is_empty());
    assert!(api.presets.is_empty());
}

#[test]
fn sanitizing_keeps_letters_digits_hyphens_underscores() {
    let api = ChromashApi::new();
    assert_eq!(api.sanitize_name("My Theme!"), "My_Theme");
    assert_eq!(api.sanitize_name("a-b_c d"), "a-b_c_d");
    assert_eq!(api.sanitize_name("  two  spaces  "), "__two__spaces__");
    assert_eq!(api.sanitize_name("../../etc/passwd"), "etcpasswd");
    assert_eq!(api.sanitize_name("!!!"), "");
    assert_eq!(api.sanitize_name(""), "");
    assert_eq!(api.sanitize_name("Caf\u{e9} \u{4e2d}\u{6587} 42"), "Caf\u{e9}_\u{4e2d}\u{6587}_42");
    assert_eq!(api.sanitize_name("tab\there\nnow"), "tabherenow");
}

#[test]
fn saving_files_a_preset_under_its_sanitized_name() {
    let mut api = ChromashApi::new();
    assert!(api.save_preset("My Theme!", None, None, 1000));
    assert_eq!(dirs(&api), vec!["My_Theme".to_string()]);
    let listed = api.list_presets();
    assert_eq!(listed.len(), 1);
    assert_eq!(listed[0].name, "My Theme!");
    assert_eq!(listed[0].created, 1000);
    assert_eq!(listed[0].modified, 1000);
    assert_eq!(listed[0].source, None);
    assert_eq!(listed[0].wallpaper, None);
    assert_eq!(api.get_preset_dir("My Theme!").unwrap(), "My_Theme");
    assert_eq!(api.get_preset_dir("My Theme").unwrap(), "My_Theme");
    assert_eq!(api.get_preset_dir("My_Theme").unwrap(), "My_Theme");
}

#[test]
fn saving_again_overwrites_both_times() {
    let mut api = ChromashApi::new();
    api.save_preset("one", Some("color_112233".to_string()), None, 10);
    api.save_preset("two", None, None, 20);
    api.save_preset("one", None, Some("/w.png".to_string()), 30);
    let listed = api.list_presets();
    assert_eq!(listed.len(), 2);
    assert_eq!(listed[0].name, "one");
    assert_eq!(listed[0].created, 30);
    assert_eq!(listed[0].modified, 30);
    assert_eq!(listed[0].source, None);
    assert_eq!(listed[0].wallpaper, Some("/w.png".to_string()));
    assert_eq!(listed[1].name, "two");
    assert_eq!(dirs(&api), vec!["two".to_string(), "one".to_string()]);
}

#[test]
fn names_that_sanitize_alike_share_a_place() {
    let mut api = ChromashApi::new();
    api.save_preset("My Theme!", None, None, 1);
    api.save_preset("My_Theme?", None, None, 2);
    assert_eq!(names(&api), vec!["My_Theme?".to_string()]);
    api.save_preset("My Theme", None, None, 3);
    api.save_preset("My_Theme", None, None, 4);
    assert_eq!(names(&api), vec!["My_Theme".to_string()]);
    assert_eq!(dirs(&api).len(), 1);
}

#[test]
fn saving_leaves_the_current_theme() {
    let mut api = ChromashApi::new();
    api.apply_color("abcdef", ThemeOptions::default(), 5);
    let before = api.load_current_theme();
    api.save_preset("x", None, None, 6);
    api.delete_preset("x");
    api.delete_preset("y");
    assert!(same_theme(&before, &api.load_current_theme()));
}

#[test]
fn listing_goes_from_newest_to_oldest() {
    let mut api = ChromashApi::new();
    api.presets.push(entry("a", Record::Valid(preset("a", 5))));
    api.presets.push(entry("b", Record::Valid(preset("b", 50))));
    api.presets.push(entry("c", Record::Valid(preset("c", 1))));
    api.presets.push(entry("d", Record::Valid(preset("d", 20))));
    assert_eq!(names(&api), vec!["b", "d", "a", "c"]);
}

#[test]
fn listing_keeps_the_order_of_equal_times() {
    let mut api = ChromashApi::new();
    api.presets.push(entry("a", Record::Valid(preset("a", 7))));
    api.presets.push(entry("b", Record::Valid(preset("b", 9))));
    api.presets.push(entry("c", Record::Valid(preset("c", 7))));
    api.presets.push(entry("d", Record::Valid(preset("d", 9))));
    api.presets.push(entry("e", Record::Valid(preset("e", 7))));
    assert_eq!(names(&api), vec!["b", "d", "a", "c", "e"]);
}

#[test]
fn listing_sorts_many() {
    let mut api = ChromashApi::new();
    let mut expected = Vec::new();
    for i in 0..60u64 {
        let modified = (i * 37) % 11;
        api.presets.push(entry(&format!("p{}", i), Record::Valid(preset(&format!("p{}", i), modified))));
        expected.push((modified, i));
    }
    expected.sort_by(|a, b| b.0.cmp(&a.0));
    let listed = api.list_presets();
    assert_eq!(listed.len(), 60);
    for (got, want) in listed.iter().zip(expected.iter()) {
        assert_eq!(got.modified, want.0);
        assert_eq!(got.name, format!("p{}", want.1));
    }
}

#[test]
fn listing_skips_what_does_not_read_back() {
    let mut api = ChromashApi::new();
    api.presets.push(entry("good", Record::Valid(preset("Good One", 3))));
    api.presets.push(entry("cut", Record::Corrupt("EOF while parsing".to_string())));
    let listed = api.list_presets();
    assert_eq!(listed.len(), 1);
    assert_eq!(listed[0].name, "Good One");
    api.presets.push(entry("locked", Record::Unreadable("permission denied".to_string())));
    api.presets.push(entry("bare", Record::Missing));
    assert_eq!(api.list_presets().len(), 1);
}

#[test]
fn deleting_a_preset_that_is_not_there() {
    let mut api = ChromashApi::new();
    assert!(!api.delete_preset("nothing"));
    api.save_preset("one", None, None, 1);
    assert!(!api.delete_preset("two"));
    assert!(!api.delete_preset(""));
    assert_eq!(names(&api), vec!["one"]);
}

#[test]
fn deleting_a_preset() {
    let mut api = ChromashApi::new();
    api.save_preset("one", None, None, 1);
    api.save_preset("My Theme!", None, None, 2);
    api.save_preset("three", None, None, 3);
    assert!(api.delete_preset("My Theme!"));
    assert_eq!(names(&api), vec!["three", "one"]);
    assert!(!api.delete_preset("My Theme!"));
    assert!(api.delete_preset("one?"));
    assert_eq!(names(&api), vec!["three"]);
}

#[test]
fn deleting_finds_places_that_do_not_read_back() {
    let mut api = ChromashApi::new();
    api.presets.push(entry("cut", Record::Corrupt("bad".to_string())));
    api.presets.push(entry("bare", Record::Missing));
    assert!(api.delete_preset("cut"));
    assert!(api.delete_preset("bare"));
    assert!(api.presets.is_empty());
}

#[test]
fn a_display_name_alone_finds_nothing() {
    let mut api = ChromashApi::new();
    api.presets.push(entry("elsewhere", Record::Valid(preset("Shown Name", 3))));
    assert!(matches!(api.get_preset_dir("Shown Name"), Err(ChromashError::NotFound(_))));
    assert!(!api.delete_preset("Shown Name"));
    assert_eq!(api.presets.len(), 1);
    assert_eq!(api.get_preset_dir("elsewhere").unwrap(), "elsewhere");
}

#[test]
fn looking_for_a_missing_preset() {
    let api = ChromashApi::new();
    match api.get_preset_dir("gone") {
        Err(ChromashError::NotFound(text)) => assert_eq!(text, "Preset directory for: gone"),
        other => panic!("unexpected: {:?}", other),
    }
    match api.find_preset("gone") {
        Err(ChromashError::NotFound(text)) => assert_eq!(text, "Preset directory for: gone"),
        other => panic!("unexpected: {:?}", other),
    }
}

#[test]
fn finding_a_preset_reports_what_its_place_holds() {
    let mut api = ChromashApi::new();
    api.presets.push(entry("good", Record::Valid(preset("Good", 3))));
    api.presets.push(entry("cut", Record::Corrupt("EOF while parsing".to_string())));
    api.presets.push(entry("locked", Record::Unreadable("permission denied".to_string())));
    api.presets.push(entry("bare", Record::Missing));
    assert_eq!(api.find_preset("good").unwrap().name, "Good");
    match api.find_preset("cut") {
        Err(ChromashError::Json(text)) => assert_eq!(text, "EOF while parsing"),
        other => panic!("unexpected: {:?}", other),
    }
    match api.find_preset("locked") {
        Err(ChromashError::Io(text)) => assert_eq!(text, "permission denied"),
        other => panic!("unexpected: {:?}", other),
    }
    match api.find_preset("bare") {
        Err(ChromashError::NotFound(text)) => assert_eq!(text, "Preset metadata for: bare"),
        other => panic!("unexpected: {:?}", other),
    }
}

#[test]
fn applying_a_colour_records_it() {
    let mut api = ChromashApi::new();
    let request = api.apply_color("ff00ff", ThemeOptions::default(), 77);
    assert_eq!(request.mode, ColorMode::Light);
    assert_eq!(request.scheme, SchemeType::TonalSpot);
    assert!(matches!(&request.target, ThemeSource::Color(hex) if hex == "ff00ff"));
    let theme = api.load_current_theme().unwrap();
    assert_eq!(theme.source, "color_ff00ff");
    assert_eq!(theme.timestamp, 77);
    assert_eq!(theme.preset_name, None);
    assert!(api.presets.is_empty());
}

#[test]
fn applying_a_colour_with_options() {
    let mut api = ChromashApi::new();
    let options = ThemeOptions {
        mode: Some(ColorMode::Dark),
        scheme: Some(SchemeType::Rainbow),
        save_preset: true,
        preset_name: Some("Night Sky".to_string()),
    };
    let request = api.apply_color("001122", options, 9);
    assert_eq!(request.mode, ColorMode::Dark);
    assert_eq!(request.scheme, SchemeType::Rainbow);
    let theme = api.load_current_theme().unwrap();
    assert_eq!(theme.source, "color_001122");
    assert_eq!(theme.preset_name, Some("Night Sky".to_string()));
    let listed = api.list_presets();
    assert_eq!(listed.len(), 1);
    assert_eq!(listed[0].name, "Night Sky");
    assert_eq!(listed[0].source, Some("color_001122".to_string()));
    assert_eq!(listed[0].wallpaper, None);
    assert_eq!(listed[0].created, 9);
    assert_eq!(dirs(&api), vec!["Night_Sky"]);
}

#[test]
fn saving_without_a_name_saves_no_preset() {
    let mut api = ChromashApi::new();
    let options = ThemeOptions { mode: None, scheme: None, save_preset: true, preset_name: None };
    api.apply_color("001122", options, 9);
    assert!(api.presets.is_empty());
    let theme = api.load_current_theme().unwrap();
    assert_eq!(theme.source, "color_001122");
    assert_eq!(theme.preset_name, None);
}

#[test]
fn a_name_without_the_request_saves_no_preset() {
    let mut api = ChromashApi::new();
    let options = ThemeOptions {
        mode: None,
        scheme: None,
        save_preset: false,
        preset_name: Some("unused".to_string()),
    };
    api.apply_color("001122", options, 9);
    assert!(api.presets.is_empty());
    assert_eq!(api.load_current_theme().unwrap().preset_name, None);
}

#[test]
fn each_apply_overwrites_the_current_theme() {
    let mut api = ChromashApi::new();
    let options = ThemeOptions {
        mode: None,
        scheme: None,
        save_preset: true,
        preset_name: Some("kept".to_string()),
    };
    api.apply_color("111111", options, 1);
    api.apply_color("222222", ThemeOptions::default(), 2);
    let theme = api.load_current_theme().unwrap();
    assert_eq!(theme.source, "color_222222");
    assert_eq!(theme.timestamp, 2);
    assert_eq!(theme.preset_name, None);
    assert_eq!(names(&api), vec!["kept"]);
}

#[test]
fn recording_a_wallpaper_derives_mode_and_scheme() {
    let mut api = ChromashApi::new();
    let request = api.record_wallpaper("/w/a.png", (240, 240, 208), ThemeOptions::default(), 3);
    assert_eq!(request.mode, ColorMode::Light);
    assert_eq!(request.scheme, SchemeType::TonalSpot);
    assert!(matches!(&request.target, ThemeSource::Wallpaper(p) if p == "/w/a.png"));
    let request = api.record_wallpaper("/w/b.png", (16, 16, 32), ThemeOptions::default(), 4);
    assert_eq!(request.mode, ColorMode::Dark);
    assert_eq!(request.scheme, SchemeType::Neutral);
    let request = api.record_wallpaper("/w/c.png", (192, 16, 16), ThemeOptions::default(), 5);
    assert_eq!(request.mode, ColorMode::Dark);
    assert_eq!(request.scheme, SchemeType::Expressive);
    let theme = api.load_current_theme().unwrap();
    assert_eq!(theme.source, "wallpaper_/w/c.png");
    assert_eq!(theme.timestamp, 5);
}

#[test]
fn explicit_options_win_over_the_picked_colour() {
    let mut api = ChromashApi::new();
    let options = ThemeOptions {
        mode: Some(ColorMode::Light),
        scheme: Some(SchemeType::Monochrome),
        save_preset: true,
        preset_name: Some("Wall".to_string()),
    };
    let request = api.record_wallpaper("/w/b.png", (16, 16, 32), options, 4);
    assert_eq!(request.mode, ColorMode::Light);
    assert_eq!(request.scheme, SchemeType::Monochrome);
    let listed = api.list_presets();
    assert_eq!(listed.len(), 1);
    assert_eq!(listed[0].source, Some("wallpaper_/w/b.png".to_string()));
    assert_eq!(listed[0].wallpaper, Some("/w/b.png".to_string()));
    assert_eq!(api.load_current_theme().unwrap().preset_name, Some("Wall".to_string()));
}

#[test]
fn a_wallpaper_without_extraction_changes_nothing() {
    let mut api = ChromashApi::new();
    api.apply_color("ff00ff", ThemeOptions::default(), 77);
    api.save_preset("kept", None, None, 78);
    let before = api.load_current_theme();
    let image = png(8, 8, [200, 30, 30]);
    let options = ThemeOptions {
        mode: Some(ColorMode::Dark),
        scheme: None,
        save_preset: true,
        preset_name: Some("never".to_string()),
    };
    assert!(matches!(api.apply_wallpaper("/w/a.png", false, &image, options, 99), Ok(None)));
    assert!(same_theme(&before, &api.load_current_theme()));
    assert_eq!(api.load_current_theme().unwrap().source, "color_ff00ff");
    assert_eq!(api.load_current_theme().unwrap().timestamp, 77);
    assert_eq!(names(&api), vec!["kept"]);
    let mut fresh = ChromashApi::new();
    assert!(matches!(
        fresh.apply_wallpaper("/w/a.png", false, &image, ThemeOptions::default(), 1),
        Ok(None)
    ));
    assert!(matches!(
        fresh.apply_wallpaper("/w/a.png", false, b"no image", ThemeOptions::default(), 1),
        Ok(None)
    ));
    assert!(fresh.load_current_theme().is_none());
}

#[test]
fn a_wallpaper_that_does_not_decode_is_an_error() {
    let mut api = ChromashApi::new();
    api.apply_color("ff00ff", ThemeOptions::default(), 77);
    api.save_preset("kept", None, None, 78);
    let before = api.load_current_theme();
    let options = ThemeOptions {
        mode: None,
        scheme: None,
        save_preset: true,
        preset_name: Some("never".to_string()),
    };
    match api.apply_wallpaper("/w/a.png", true, b"no image", options, 99) {
        Err(ChromashError::Json(text)) => assert!(text.starts_with("Failed to decode: ")),
        other => panic!("unexpected: {:?}", other),
    }
    assert!(same_theme(&before, &api.load_current_theme()));
    assert_eq!(names(&api), vec!["kept"]);
}

#[test]
fn a_wallpaper_with_extraction_is_recorded() {
    let mut api = ChromashApi::new();
    let image = png(8, 8, [200, 30, 30]);
    let request =
        api.apply_wallpaper("/w/a.png", true, &image, ThemeOptions::default(), 99).unwrap().unwrap();
    // picked (192, 16, 16): brightness 68, chroma 176
    assert_eq!(request.mode, ColorMode::Dark);
    assert_eq!(request.scheme, SchemeType::Expressive);
    assert!(matches!(&request.target, ThemeSource::Wallpaper(p) if p == "/w/a.png"));
    let theme = api.load_current_theme().unwrap();
    assert_eq!(theme.source, "wallpaper_/w/a.png");
    assert_eq!(theme.timestamp, 99);
    assert_eq!(theme.preset_name, None);
}

#[test]
fn a_grey_wallpaper_is_painted_neutral() {
    let mut api = ChromashApi::new();
    let image = png(8, 8, [250, 250, 250]);
    let request =
        api.apply_wallpaper("/w/a.png", true, &image, ThemeOptions::default(), 1).unwrap().unwrap();
    // picked (240, 240, 240): brightness 240, no chroma
    assert_eq!(request.mode, ColorMode::Light);
    assert_eq!(request.scheme, SchemeType::Neutral);
    let image = png(8, 8, [100, 100, 100]);
    let request =
        api.apply_wallpaper("/w/b.png", true, &image, ThemeOptions::default(), 2).unwrap().unwrap();
    // picked (96, 96, 96): brightness 96
    assert_eq!(request.mode, ColorMode::Dark);
    assert_eq!(request.scheme, SchemeType::Neutral);
}

#[test]
fn applying_a_colour_preset_paints_with_defaults() {
    let mut api = ChromashApi::new();
    api.save_preset("Pink", Some("color_ff00ff".to_string()), None, 5);
    match api.apply_preset("Pink", false, false, 10) {
        Ok(PresetStep::Paint(request)) => {
            assert_eq!(request.mode, ColorMode::Light);
            assert_eq!(request.scheme, SchemeType::TonalSpot);
            assert!(matches!(&request.target, ThemeSource::Color(hex) if hex == "ff00ff"));
            assert_eq!(
                request.arguments(),
                vec!["-m", "light", "-t", "scheme-tonal-spot", "color", "hex", "ff00ff"]
            );
        }
        other => panic!("unexpected: {:?}", other),
    }
    let theme = api.load_current_theme().unwrap();
    assert_eq!(theme.source, "color_ff00ff");
    assert_eq!(theme.timestamp, 10);
    assert_eq!(theme.preset_name, None);
    assert_eq!(api.list_presets()[0].modified, 5);
}

#[test]
fn applying_a_wallpaper_preset_names_the_wallpaper() {
    let mut api = ChromashApi::new();
    api.save_preset("Wall", Some("wallpaper_/w/a.png".to_string()), Some("/w/b.png".to_string()), 5);
    match api.apply_preset("Wall", true, true, 10) {
        Ok(PresetStep::Wallpaper(path)) => assert_eq!(path, "/w/a.png"),
        other => panic!("unexpected: {:?}", other),
    }
    match api.apply_preset("Wall", true, false, 10) {
        Ok(PresetStep::Wallpaper(path)) => assert_eq!(path, "/w/a.png"),
        other => panic!("unexpected: {:?}", other),
    }
    match api.apply_preset("Wall", false, true, 10) {
        Ok(PresetStep::Wallpaper(path)) => assert_eq!(path, "/w/b.png"),
        other => panic!("unexpected: {:?}", other),
    }
    match api.apply_preset("Wall", false, false, 10) {
        Err(ChromashError::NotFound(text)) => assert_eq!(text, "Unable to apply preset: Wall"),
        other => panic!("unexpected: {:?}", other),
    }
    assert!(api.load_current_theme().is_none());
}

#[test]
fn applying_a_preset_with_nothing_to_apply() {
    let mut api = ChromashApi::new();
    api.save_preset("Empty", None, None, 5);
    api.save_preset("Odd", Some("gradient_1".to_string()), None, 6);
    assert!(matches!(api.apply_preset("Empty", true, true, 10), Err(ChromashError::NotFound(_))));
    assert!(matches!(api.apply_preset("Odd", true, true, 10), Err(ChromashError::NotFound(_))));
    api.save_preset("Fallback", Some("gradient_1".to_string()), Some("/w/c.png".to_string()), 7);
    match api.apply_preset("Fallback", false, true, 10) {
        Ok(PresetStep::Wallpaper(path)) => assert_eq!(path, "/w/c.png"),
        other => panic!("unexpected: {:?}", other),
    }
}

#[test]
fn applying_a_preset_that_cannot_be_read() {
    let mut api = ChromashApi::new();
    api.presets.push(entry("cut", Record::Corrupt("EOF while parsing".to_string())));
    api.presets.push(entry("bare", Record::Missing));
    assert!(matches!(api.apply_preset("cut", true, true, 1), Err(ChromashError::Json(_))));
    assert!(matches!(api.apply_preset("bare", true, true, 1), Err(ChromashError::NotFound(_))));
    match api.apply_preset("absent", true, true, 1) {
        Err(ChromashError::NotFound(text)) => assert_eq!(text, "Preset directory for: absent"),
        other => panic!("unexpected: {:?}", other),
    }
    assert!(api.load_current_theme().is_none());
    assert_eq!(api.presets.len(), 2);
}

#[test]
fn a_colour_source_wins_over_a_wallpaper() {
    let meta = PresetMetadata {
        name: "Both".to_string(),
        created: 1,
        modified: 1,
        source: Some("color_".to_string()),
        wallpaper: Some("/w/a.png".to_string()),
    };
    match ChromashApi::preset_action(&meta, "Both", true, true) {
        Ok(ThemeSource::Color(hex)) => assert_eq!(hex, ""),
        other => panic!("unexpected: {:?}", other),
    }
}
