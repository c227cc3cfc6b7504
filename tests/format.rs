use text_components::format::{Color, Format};

#[test]
fn mix_prefers_own_fields() {
    let a = Format::new().bold(true);
    let b = Format::new().bold(false).italic(true).color(Color::Red);
    let m = a.mix(&b);
    assert_eq!(m.bold, Some(true));
    assert_eq!(m.italic, Some(true));
    assert_eq!(m.color, Some(Color::Red));
    assert_eq!(m.underline, None);
}

#[test]
fn mix_is_associative_on_examples() {
    let a = Format::new().bold(true);
    let b = Format::new().italic(false).font(String::from("f"));
    let c = Format::new().bold(false).italic(true).obfuscated(true);
    let left = a.mix(&b).mix(&c);
    let right = a.mix(&b.mix(&c));
    assert_eq!(left.bold, right.bold);
    assert_eq!(left.italic, right.italic);
    assert_eq!(left.font, right.font);
    assert_eq!(left.obfuscated, right.obfuscated);
    assert_eq!(left.bold, Some(true));
    assert_eq!(left.italic, Some(false));
    assert_eq!(left.obfuscated, Some(true));
}

#[test]
fn color_hex_reads_six_digits() {
    let f = Format::new().color_hex("#bf00ff");
    assert_eq!(f.color, Some(Color::Hex(0xbf, 0x00, 0xff)));
    let g = Format::new().color_hex("#BF00FF");
    assert_eq!(g.color, Some(Color::Hex(0xbf, 0x00, 0xff)));
}

#[test]
fn color_hex_ignores_malformed() {
    assert_eq!(Format::new().color_hex("bf00ff").color, None);
    assert_eq!(Format::new().color_hex("#bf00f").color, None);
    assert_eq!(Format::new().color_hex("#bf00fg").color, None);
    assert_eq!(Format::new().color(Color::Red).color_hex("#12").color, Some(Color::Red));
}

#[test]
fn shadow_color_packs_argb() {
    let f = Format::new().shadow_color(0xff, 0x10, 0x20, 0x30);
    assert_eq!(f.shadow_color, Some(0xff102030));
    assert_eq!(Format::new().shadow_color(0, 0, 0, 1).shadow_color, Some(1));
}

#[test]
fn reset_sets_defaults() {
    let f = Format::new().bold(true).shadow_color(1, 2, 3, 4).reset();
    assert_eq!(f.color, Some(Color::White));
    assert_eq!(f.font.as_deref(), Some("minecraft:default"));
    assert_eq!(f.bold, Some(false));
    assert_eq!(f.italic, Some(false));
    assert_eq!(f.underline, Some(false));
    assert_eq!(f.strikethrough, Some(false));
    assert_eq!(f.obfuscated, Some(false));
    assert_eq!(f.shadow_color, None);
}

#[test]
fn new_format_is_empty() {
    assert!(Format::new().is_none());
    assert!(!Format::new().italic(false).is_none());
}

#[test]
fn defaults_are_empty() {
    assert!(Format::default().is_none());
    assert!(text_components::interactivity::Interactivity::default().is_none());
    let c = text_components::TextComponent::default();
    assert!(c.children.is_empty());
    assert!(c.format.is_none());
}
