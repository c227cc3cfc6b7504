use text_components::content::Content;
use text_components::format::Color;
use text_components::interactivity::{ClickEvent, HoverEvent};
use text_components::nbt::{NbtCompound, NbtTag};
use text_components::resolving::NoResolutor;
use text_components::{Modifier, TextComponent};

#[test]
fn tag_text_form() {
    assert_eq!(NbtTag::Byte(-3).to_snbt(), "-3b");
    assert_eq!(NbtTag::Short(7).to_snbt(), "7s");
    assert_eq!(NbtTag::Int(42).to_snbt(), "42");
    assert_eq!(NbtTag::Long(-9).to_snbt(), "-9l");
    assert_eq!(NbtTag::String(String::from("a\"b\\c\nd")).to_snbt(), "\"a\\\"b\\\\c\\nd\"");
    assert_eq!(NbtTag::IntArray(vec![1, 2]).to_snbt(), "[I;1,2]");
    assert_eq!(NbtTag::ByteArray(vec![1, -1]).to_snbt(), "[B;1b,-1b]");
    assert_eq!(NbtTag::LongArray(vec![5]).to_snbt(), "[L;5l]");
    assert_eq!(NbtTag::List(vec![NbtTag::Int(1), NbtTag::Int(2)]).to_snbt(), "[1,2]");
    let c = NbtCompound::from_values(vec![(String::from("a"), NbtTag::Int(1)), (String::from("b"), NbtTag::Byte(0))]);
    assert_eq!(NbtTag::Compound(c).to_snbt(), "{a:1,b:0b}");
}

#[test]
fn encodes_component() {
    let c = TextComponent::plain("hi").color(Color::Hex(1, 2, 255)).bold(true).add_child(TextComponent::plain("!"));
    assert_eq!(c.to_nbt(&NoResolutor).to_snbt(), "{text:\"hi\",color:\"#0102ff\",bold:1b,extra:[{text:\"!\"}]}");
}

#[test]
fn encodes_interactions() {
    let c = TextComponent::plain("x")
        .insertion("ins")
        .click_event(ClickEvent::change_page(2))
        .hover_event(HoverEvent::show_entity("pig", [1, 2, 3, 4], Some("Bob")));
    let s = c.to_nbt(&NoResolutor).to_snbt();
    assert_eq!(
        s,
        "{text:\"x\",insertion:\"ins\",hover_event:{action:\"show_entity\",id:\"pig\",uuid:[1,2,3,4],name:\"Bob\"},click_event:{action:\"change_page\",page:2}}"
    );
    let back = TextComponent::from_snbt(&s).unwrap();
    assert!(matches!(back.interactions.click, Some(ClickEvent::ChangePage { page: 2 })));
    assert!(matches!(&back.interactions.hover, Some(HoverEvent::ShowEntity { uuid, .. }) if *uuid == [1, 2, 3, 4]));
}

#[test]
fn decodes_tags() {
    assert!(TextComponent::from_nbt(&NbtTag::String(String::new())).is_none());
    assert!(TextComponent::from_nbt(&NbtTag::Int(3)).is_none());
    let s = TextComponent::from_nbt(&NbtTag::String(String::from("x"))).unwrap();
    assert!(matches!(&s.content, Content::Text(t) if t == "x"));
    let tag = TextComponent::plain("hi").italic(true).add_child(TextComponent::plain("!")).to_nbt(&NoResolutor);
    let back = TextComponent::from_nbt(&tag).unwrap();
    assert!(matches!(&back.content, Content::Text(t) if t == "hi"));
    assert_eq!(back.format.italic, Some(true));
    assert_eq!(back.children.len(), 1);
    let list = TextComponent::from_nbt(&NbtTag::List(vec![NbtTag::String(String::from("a")), NbtTag::Int(1)])).unwrap();
    assert_eq!(list.children.len(), 1);
}

#[test]
fn decodes_translation_and_events() {
    let tag = Text::translated();
    let back = TextComponent::from_nbt(&tag).unwrap();
    match &back.content {
        Content::Translate(m) => {
            assert_eq!(m.key, "k");
            assert_eq!(m.args.as_ref().map(|a| a.len()), Some(1));
        },
        _ => panic!("not a translation"),
    }
    assert!(matches!(&back.interactions.click, Some(ClickEvent::OpenUrl { url }) if url == "u"));
}

struct Text;

impl Text {
    fn translated() -> NbtTag {
        let click = NbtCompound::from_values(vec![
            (String::from("action"), NbtTag::String(String::from("open_url"))),
            (String::from("url"), NbtTag::String(String::from("u"))),
        ]);
        NbtTag::Compound(NbtCompound::from_values(vec![
            (String::from("translate"), NbtTag::String(String::from("k"))),
            (String::from("with"), NbtTag::List(vec![NbtTag::String(String::from("a"))])),
            (String::from("click_event"), NbtTag::Compound(click)),
        ]))
    }
}
