use slider_core::anchor::set_chinese_font;
use slider_core::anchor::Anchor;
use slider_core::anchor::FontFamilies;

#[test]
fn all_lists_the_reachable_pages_in_order() {
    assert_eq!(
        Anchor::all(),
        vec![
            Anchor::Demo,
            Anchor::EasyMarkEditor,
            Anchor::Http,
            Anchor::Clock,
            Anchor::Custom3d,
            Anchor::Rendering,
        ]
    );
}

#[test]
fn an_anchor_is_named_by_its_variant_in_lower_case() {
    for anchor in [
        Anchor::Demo,
        Anchor::EasyMarkEditor,
        Anchor::Http,
        Anchor::ImageViewer,
        Anchor::Clock,
        Anchor::Custom3d,
        Anchor::Rendering,
    ] {
        assert_eq!(anchor.to_string(), format!("{anchor:?}").to_ascii_lowercase());
    }
    assert_eq!(Anchor::EasyMarkEditor.to_string(), "easymarkeditor");
    assert_eq!(Anchor::Custom3d.to_string(), "custom3d");
}

#[test]
fn the_default_anchor_is_the_demo() {
    assert_eq!(Anchor::default(), Anchor::Demo);
}

#[test]
fn a_page_is_found_by_its_name_in_any_case() {
    for anchor in Anchor::all() {
        let name = anchor.to_string();
        assert_eq!(Anchor::from_str_case_insensitive(&name), Some(anchor));
        assert_eq!(Anchor::from_str_case_insensitive(&name.to_uppercase()), Some(anchor));
        assert_eq!(Anchor::from_name(&name), Some(anchor));
    }
    assert_eq!(Anchor::from_str_case_insensitive("CLOCK"), Some(Anchor::Clock));
    assert_eq!(Anchor::from_str_case_insensitive("EasyMarkEditor"), Some(Anchor::EasyMarkEditor));
    assert_eq!(Anchor::from_str_case_insensitive("Custom3D"), Some(Anchor::Custom3d));
    // The Kelvin sign is a capital letter whose lower case is the letter k.
    assert_eq!(Anchor::from_str_case_insensitive("cloc\u{212a}"), Some(Anchor::Clock));
}

#[test]
fn an_exact_name_is_case_sensitive() {
    assert_eq!(Anchor::from_name(&"clock".to_owned()), Some(Anchor::Clock));
    assert_eq!(Anchor::from_name(&"Clock".to_owned()), None);
    assert_eq!(Anchor::from_name(&"CLOCK".to_owned()), None);
}

#[test]
fn what_is_no_name_finds_no_page() {
    for text in ["", " ", "demos", "dem", "clock ", "#clock", "rendering_test"] {
        assert_eq!(Anchor::from_str_case_insensitive(text), None, "{text:?}");
    }
    // The image viewer has a name and cannot be reached by it.
    assert_eq!(Anchor::from_str_case_insensitive("imageviewer"), None);
    assert_eq!(Anchor::from_name(&Anchor::ImageViewer.to_string()), None);
}

#[test]
fn the_chinese_font_comes_first_in_both_families() {
    let mut families = FontFamilies {
        proportional: vec!["Ubuntu-Light".to_owned(), "NotoEmoji-Regular".to_owned()],
        monospace: vec!["Hack".to_owned()],
    };
    set_chinese_font(&mut families);
    assert_eq!(families.proportional, ["simsun_chinese", "Ubuntu-Light", "NotoEmoji-Regular"]);
    assert_eq!(families.monospace, ["simsun_chinese", "Hack"]);
    let mut empty = FontFamilies { proportional: vec![], monospace: vec![] };
    set_chinese_font(&mut empty);
    assert_eq!(empty.proportional, ["simsun_chinese"]);
    assert_eq!(empty.monospace, ["simsun_chinese"]);
}

#[test]
fn the_tabs_come_in_their_order() {
    assert_eq!(
        Anchor::tab_anchors(false),
        vec![
            Anchor::Demo,
            Anchor::EasyMarkEditor,
            Anchor::Http,
            Anchor::Clock,
            Anchor::ImageViewer,
            Anchor::Rendering,
        ]
    );
    assert_eq!(
        Anchor::tab_anchors(true),
        vec![
            Anchor::Demo,
            Anchor::EasyMarkEditor,
            Anchor::Http,
            Anchor::Clock,
            Anchor::ImageViewer,
            Anchor::Custom3d,
            Anchor::Rendering,
        ]
    );
}

#[test]
fn each_tab_has_its_label() {
    assert_eq!(Anchor::Demo.label(), "\u{2728} Demos");
    assert_eq!(Anchor::EasyMarkEditor.label(), "\u{1f5b9} EasyMark editor");
    assert_eq!(Anchor::Http.label(), "\u{2b07} HTTP");
    assert_eq!(Anchor::Clock.label(), "\u{1f551} Fractal Clock");
    assert_eq!(Anchor::ImageViewer.label(), "\u{1f5bc} Image Viewer");
    assert_eq!(Anchor::Custom3d.label(), "\u{1f53a} 3D painting");
    assert_eq!(Anchor::Rendering.label(), "\u{1f3a8} Rendering test");
}

#[test]
fn the_selected_page_is_shown() {
    assert!(Anchor::Clock.is_shown(Anchor::Clock, false));
    assert!(!Anchor::Clock.is_shown(Anchor::Demo, false));
    assert!(Anchor::Clock.is_shown(Anchor::Demo, true));
    assert!(Anchor::Clock.is_shown(Anchor::Clock, true));
}
