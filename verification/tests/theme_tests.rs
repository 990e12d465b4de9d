use chromash::color::{ColorMode, SchemeType};
use chromash::error::ChromashError;
use chromash::theme::{copy_opt, CurrentTheme, PaintRequest, PresetMetadata, ThemeSource};

#[test]
fn sources_encode_with_their_tag() {
    assert_eq!(ThemeSource::Color("ff00ff".to_string()).encode(), "color_ff00ff");
    assert_eq!(ThemeSource::Wallpaper("/a/b.png".to_string()).encode(), "wallpaper_/a/b.png");
    assert_eq!(ThemeSource::Color(String::new()).encode(), "color_");
}

#[test]
fn sources_decode_by_their_tag() {
    assert!(matches!(ThemeSource::decode("color_ff00ff"), Some(ThemeSource::Color(h)) if h == "ff00ff"));
    assert!(matches!(ThemeSource::decode("wallpaper_/a b.png"), Some(ThemeSource::Wallpaper(p)) if p == "/a b.png"));
    assert!(matches!(ThemeSource::decode("color_"), Some(ThemeSource::Color(h)) if h.is_empty()));
    assert!(ThemeSource::decode("").is_none());
    assert!(ThemeSource::decode("color").is_none());
    assert!(ThemeSource::decode("Color_ff00ff").is_none());
    assert!(ThemeSource::decode("wallpaper").is_none());
    assert!(ThemeSource::decode("/a/b.png").is_none());
}

#[test]
fn sources_round_trip() {
    for text in ["ff00ff", "", "color_", "wallpaper_x", "/p/\u{e9}.png"] {
        let c = ThemeSource::Color(text.to_string());
        assert!(matches!(ThemeSource::decode(&c.encode()), Some(ThemeSource::Color(h)) if h == text));
        let w = ThemeSource::Wallpaper(text.to_string());
        assert!(matches!(ThemeSource::decode(&w.encode()), Some(ThemeSource::Wallpaper(p)) if p == text));
    }
}

#[test]
fn a_path_that_begins_with_a_tag_reads_as_that_tag() {
    assert!(matches!(ThemeSource::decode("color_wallpaper_x"), Some(ThemeSource::Color(h)) if h == "wallpaper_x"));
}

#[test]
fn paint_arguments_for_a_colour() {
    let request = PaintRequest {
        mode: ColorMode::Dark,
        scheme: SchemeType::FruitSalad,
        target: ThemeSource::Color("123abc".to_string()),
    };
    assert_eq!(
        request.arguments(),
        vec!["-m", "dark", "-t", "scheme-fruit-salad", "color", "hex", "123abc"]
    );
}

#[test]
fn paint_arguments_for_an_image() {
    let request = PaintRequest {
        mode: ColorMode::Light,
        scheme: SchemeType::Content,
        target: ThemeSource::Wallpaper("/w/a b.png".to_string()),
    };
    assert_eq!(request.arguments(), vec!["-m", "light", "-t", "scheme-content", "image", "/w/a b.png"]);
}

#[test]
fn copies_hold_the_same() {
    let p = PresetMetadata {
        name: "n".to_string(),
        created: 1,
        modified: 2,
        source: Some("color_1".to_string()),
        wallpaper: None,
    };
    let q = p.duplicate();
    assert_eq!((q.name, q.created, q.modified, q.source, q.wallpaper), (p.name, 1, 2, p.source, None));
    let t = CurrentTheme { source: "s".to_string(), timestamp: 4, preset_name: Some("x".to_string()) };
    let u = t.duplicate();
    assert_eq!((u.source, u.timestamp, u.preset_name), (t.source, 4, t.preset_name));
    assert_eq!(copy_opt(&None), None);
    assert_eq!(copy_opt(&Some("a".to_string())), Some("a".to_string()));
}

#[test]
fn errors_read_as_heading_and_detail() {
    assert_eq!(ChromashError::Io("denied".to_string()).message(), "IO error: denied");
    assert_eq!(ChromashError::Json("eof".to_string()).message(), "JSON error: eof");
    assert_eq!(ChromashError::Process("exit 1".to_string()).message(), "Process failed: exit 1");
    assert_eq!(ChromashError::NotFound("x".to_string()).message(), "Not found: x");
    assert_eq!(ChromashError::General(String::new()).message(), "Error: ");
}
