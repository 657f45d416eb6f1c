use gfresh::ui::{should_use_color, Palette};

#[test]
fn disabled_palette_leaves_text_alone() {
    let p = Palette::new(false);
    assert!(!p.enabled);
    assert_eq!(p.good("ok"), "ok");
    assert_eq!(p.warn("careful"), "careful");
    assert_eq!(p.info(""), "");
}

#[test]
fn enabled_palette_colours() {
    let p = Palette::new(true);
    assert_eq!(p.good("ok"), "\u{1b}[32mok\u{1b}[39m");
    assert_eq!(p.warn("careful"), "\u{1b}[33mcareful\u{1b}[39m");
    assert_eq!(p.info("note"), "\u{1b}[34mnote\u{1b}[39m");
}

#[test]
fn colour_decision() {
    assert!(should_use_color(true, false, false));
    assert!(should_use_color(false, true, false));
    assert!(!should_use_color(false, false, false));
    assert!(!should_use_color(true, true, true));
}
