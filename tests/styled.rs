use text_components::format::Color;
use text_components::resolving::NoResolutor;
use text_components::styled::{obfuscate, StyledSegment};
use text_components::{Modifier, TextComponent};

fn joined(v: &[StyledSegment]) -> String {
    v.iter().map(|s| s.text.as_str()).collect()
}

#[test]
fn obfuscation_keeps_length_and_whitespace() {
    let c = TextComponent::plain("Hello, wide\tworld\n!").obfuscated(true);
    let plain = c.to_plain(&NoResolutor);
    let styled = joined(&c.to_pretty(&NoResolutor));
    let p: Vec<char> = plain.chars().collect();
    let s: Vec<char> = styled.chars().collect();
    assert_eq!(p.len(), s.len());
    for (a, b) in p.iter().zip(s.iter()) {
        if a.is_whitespace() || a.is_control() {
            assert_eq!(a, b);
        } else {
            assert!(!b.is_whitespace());
        }
    }
}

#[test]
fn obfuscation_changes_text() {
    let text = String::from("abcdefghijklmnopqrstuvwxyzabcdefghijklmnopqrstuvwxyz");
    let a = obfuscate(&text);
    let b = obfuscate(&text);
    assert_eq!(a.chars().count(), text.chars().count());
    assert_ne!(a, b);
}

#[test]
fn segments_inherit_format() {
    let c = TextComponent::plain("a").color(Color::Red).add_child(TextComponent::plain("b").bold(true));
    let segs = c.to_pretty(&NoResolutor);
    assert_eq!(segs.len(), 2);
    assert_eq!(segs[0].text, "a");
    assert_eq!(segs[0].format.color, Some(Color::Red));
    assert_eq!(segs[1].text, "b");
    assert_eq!(segs[1].format.color, Some(Color::Red));
    assert_eq!(segs[1].format.bold, Some(true));
    assert_eq!(joined(&segs), c.to_plain(&NoResolutor));
}

#[test]
fn plain_segments_are_unchanged() {
    let c = TextComponent::plain("same text");
    assert_eq!(joined(&c.to_pretty(&NoResolutor)), "same text");
}
