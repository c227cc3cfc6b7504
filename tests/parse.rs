use text_components::content::{Content, NbtSource, Object, Resolvable};
use text_components::format::Color;
use text_components::interactivity::{ClickEvent, HoverEvent};
use text_components::parse::SnbtError;
use text_components::resolving::NoResolutor;
use text_components::TextComponent;

fn parse(s: &str) -> TextComponent {
    match TextComponent::from_snbt(s) {
        Ok(c) => c,
        Err(e) => panic!("{s}: {e:?}"),
    }
}

#[test]
fn parses_plain_string() {
    let c = parse("  \"hello\\n\\\"x\\\"\"");
    assert!(matches!(&c.content, Content::Text(t) if t == "hello\n\"x\""));
    let q = parse("'single'");
    assert!(matches!(&q.content, Content::Text(t) if t == "single"));
}

#[test]
fn parses_representative_compound() {
    let c = parse("{text:\"hi\", color:\"red\", bold:true, extra:[{text:\"!\"}]}");
    assert!(matches!(&c.content, Content::Text(t) if t == "hi"));
    assert_eq!(c.format.color, Some(Color::Red));
    assert_eq!(c.format.bold, Some(true));
    assert_eq!(c.children.len(), 1);
    assert_eq!(c.to_plain(&NoResolutor), "hi!");
}

#[test]
fn round_trip_through_tag_tree() {
    let first = parse("{text:\"hi\", color:\"red\", bold:true, extra:[{text:\"!\"}]}");
    let snbt = first.to_nbt(&NoResolutor).to_snbt();
    let second = parse(&snbt);
    assert!(matches!(&second.content, Content::Text(t) if t == "hi"));
    assert_eq!(second.format.color, first.format.color);
    assert_eq!(second.format.bold, first.format.bold);
    assert_eq!(second.format.italic, None);
    assert_eq!(second.children.len(), 1);
    assert!(matches!(&second.children[0].content, Content::Text(t) if t == "!"));
    assert!(second.interactions.is_none());
}

#[test]
fn rejects_unknown_keys() {
    match TextComponent::from_snbt("{foo: \"bar\"}") {
        Err(SnbtError::UnknownKey(k)) => assert_eq!(k, "foo"),
        other => panic!("unexpected {other:?}"),
    }
}

#[test]
fn missing_content_is_an_error() {
    assert!(matches!(TextComponent::from_snbt("{bold:true}"), Err(SnbtError::MissingContent)));
    assert!(matches!(TextComponent::from_snbt("{}"), Err(SnbtError::MissingContent)));
}

#[test]
fn out_of_order_translate_keys() {
    let a = parse("{fallback:\"F\", translate:\"key\"}");
    let b = parse("{translate:\"key\", fallback:\"F\"}");
    for c in [a, b] {
        match &c.content {
            Content::Translate(m) => {
                assert_eq!(m.key, "key");
                assert_eq!(m.fallback.as_deref(), Some("F"));
                assert!(m.args.is_none());
            },
            _ => panic!("not a translation"),
        }
    }
}

#[test]
fn translation_with_arguments() {
    let c = parse("{translate:\"k\", with:[\"a\", {text:\"b\"}]}");
    match &c.content {
        Content::Translate(m) => assert_eq!(m.args.as_ref().map(|a| a.len()), Some(2)),
        _ => panic!("not a translation"),
    }
    let e = parse("{translate:\"k\", with:[]}");
    match &e.content {
        Content::Translate(m) => assert_eq!(m.args.as_ref().map(|a| a.len()), Some(0)),
        _ => panic!("not a translation"),
    }
}

#[test]
fn translation_needs_key() {
    match TextComponent::from_snbt("{fallback:\"F\"}") {
        Err(SnbtError::Required(a, b)) => {
            assert_eq!(a, "Translations");
            assert_eq!(b, "key");
        },
        other => panic!("unexpected {other:?}"),
    }
}

#[test]
fn atlas_sprite_before_object() {
    let c = parse("{sprite:\"item/x\", object:\"atlas\", atlas:\"blocks\"}");
    match &c.content {
        Content::Object(Object::Atlas { atlas, sprite }) => {
            assert_eq!(sprite, "item/x");
            assert_eq!(atlas.as_deref(), Some("blocks"));
        },
        _ => panic!("not an atlas"),
    }
}

#[test]
fn score_and_selector_and_nbt() {
    let s = parse("{score:{name:\"@p\", objective:\"deaths\"}}");
    assert!(matches!(&s.content, Content::Resolvable(Resolvable::Scoreboard { selector, objective }) if selector == "@p" && objective == "deaths"));
    let e = parse("{selector:\"@a\", separator:\" | \"}");
    match &e.content {
        Content::Resolvable(Resolvable::Entity { selector, separator }) => {
            assert_eq!(selector, "@a");
            assert!(matches!(&separator.content, Content::Text(t) if t == " | "));
        },
        _ => panic!("not an entity"),
    }
    let n = parse("{nbt:\"Health\", source:\"entity\", entity:\"@p\", interpret:1b}");
    match &n.content {
        Content::Resolvable(Resolvable::NBT { path, interpret, source, .. }) => {
            assert_eq!(path, "Health");
            assert_eq!(*interpret, Some(true));
            assert!(matches!(source, NbtSource::Entity(s) if s == "@p"));
        },
        _ => panic!("not nbt"),
    }
}

#[test]
fn score_needs_objective() {
    match TextComponent::from_snbt("{score:{name:\"@p\"}}") {
        Err(SnbtError::Required(a, b)) => {
            assert_eq!(a, "Scoreboards");
            assert_eq!(b, "objective");
        },
        other => panic!("unexpected {other:?}"),
    }
}

#[test]
fn format_fields() {
    let c = parse("{text:\"x\", color:\"#0a0B0c\", italic:false, underlined:1b, strikethrough:0b, obfuscated:true, font:\"alt\", shadow_color:-16777216}");
    assert_eq!(c.format.color, Some(Color::Hex(10, 11, 12)));
    assert_eq!(c.format.italic, Some(false));
    assert_eq!(c.format.underline, Some(true));
    assert_eq!(c.format.strikethrough, Some(false));
    assert_eq!(c.format.obfuscated, Some(true));
    assert_eq!(c.format.font.as_deref(), Some("alt"));
    assert_eq!(c.format.shadow_color, Some(0xff000000));
    let l = parse("{text:\"x\", shadow_color:[1.0f, 0.0f, 1.0f, 1.0f]}");
    assert_eq!(l.format.shadow_color, Some(0xffff00ff));
}

#[test]
fn unknown_color_is_an_error() {
    match TextComponent::from_snbt("{text:\"x\", color:\"mauve\"}") {
        Err(SnbtError::UnknownColor(c)) => assert_eq!(c, "mauve"),
        other => panic!("unexpected {other:?}"),
    }
}

#[test]
fn wrong_type_is_an_error() {
    assert!(matches!(TextComponent::from_snbt("{text:5}"), Err(SnbtError::WrongContentType(k)) if k == "text"));
    assert!(matches!(TextComponent::from_snbt("{text:\"x\", bold:yes}"), Err(SnbtError::WrongContentType(k)) if k == "bold"));
}

#[test]
fn number_overflow_is_an_error() {
    match TextComponent::from_snbt("{text:\"x\", bold:300b}") {
        Err(SnbtError::NumberOverflow(a, b)) => {
            assert_eq!(a, "bold");
            assert_eq!(b, "byte");
        },
        other => panic!("unexpected {other:?}"),
    }
}

#[test]
fn ended_abruptly() {
    assert!(matches!(TextComponent::from_snbt(""), Err(SnbtError::EndedAbruptely(_))));
    assert!(matches!(TextComponent::from_snbt("{text:\"x\""), Err(SnbtError::EndedAbruptely(_))));
    assert!(matches!(TextComponent::from_snbt("\"open"), Err(SnbtError::EndedAbruptely(_))));
}

#[test]
fn unfinished_component() {
    assert!(matches!(TextComponent::from_snbt("[\"a\" \"b\"]"), Err(SnbtError::UnfinishedComponent(_))));
}

#[test]
fn list_body_is_children() {
    let c = parse("[\"a\", {text:\"b\"}, 'c']");
    assert_eq!(c.children.len(), 3);
    assert_eq!(c.to_plain(&NoResolutor), "abc");
}

#[test]
fn interactions() {
    let c = parse("{text:\"x\", insertion:\"ins\", click_event:{action:\"open_url\", url:\"https://a.b\"}, hover_event:{action:\"show_text\", value:\"tip\"}}");
    assert_eq!(c.interactions.insertion.as_deref(), Some("ins"));
    assert!(matches!(&c.interactions.click, Some(ClickEvent::OpenUrl { url }) if url == "https://a.b"));
    assert!(matches!(&c.interactions.hover, Some(HoverEvent::ShowText { value }) if matches!(&value.content, Content::Text(t) if t == "tip")));
    let p = parse("{text:\"x\", click_event:{action:\"change_page\", page:3}}");
    assert!(matches!(p.interactions.click, Some(ClickEvent::ChangePage { page: 3 })));
}

#[test]
fn hover_entity_uuid() {
    let c = parse("{text:\"x\", hover_event:{action:\"show_entity\", id:\"minecraft:pig\", uuid:[I;1,2,3,4], name:\"Bob\"}}");
    match &c.interactions.hover {
        Some(HoverEvent::ShowEntity { name, id, uuid }) => {
            assert_eq!(id, "minecraft:pig");
            assert_eq!(*uuid, [1, 2, 3, 4]);
            assert_eq!(name.as_deref(), Some("Bob"));
        },
        _ => panic!("not an entity hover"),
    }
    let s = parse("{text:\"x\", hover_event:{action:\"show_entity\", id:\"e\", uuid:\"00000001-0000-0002-0000-000300000004\"}}");
    assert!(matches!(&s.interactions.hover, Some(HoverEvent::ShowEntity { uuid, .. }) if *uuid == [1, 2, 3, 4]));
    match TextComponent::from_snbt("{text:\"x\", hover_event:{action:\"show_entity\", id:\"e\", uuid:[I;0,0,0,0]}}") {
        Err(SnbtError::Required(_, b)) => assert_eq!(b, "uuid"),
        other => panic!("unexpected {other:?}"),
    }
    assert!(matches!(
        TextComponent::from_snbt("{text:\"x\", hover_event:{action:\"show_entity\", id:\"e\", uuid:\"nope\"}}"),
        Err(SnbtError::WrongContentType(k)) if k == "uuid"
    ));
}

#[test]
fn player_head_compound() {
    let c = parse("{object:\"player\", player:{name:\"Jeb_\", properties:[{name:\"textures\", value:\"v\"}]}, hat:false}");
    match &c.content {
        Content::Object(Object::Player { player, hat }) => {
            assert_eq!(player.name.as_deref(), Some("Jeb_"));
            assert_eq!(player.properties.len(), 1);
            assert!(!hat);
        },
        _ => panic!("not a head"),
    }
    assert!(matches!(TextComponent::from_snbt("{player:{}}"), Err(SnbtError::Required(_, _))));
}

#[test]
fn explicit_type_picks_slot() {
    let c = parse("{type:\"keybind\", text:\"t\", keybind:\"key.jump\"}");
    assert!(matches!(&c.content, Content::Keybind(k) if k == "key.jump"));
    assert!(matches!(TextComponent::from_snbt("{type:\"weird\", text:\"t\"}"), Err(SnbtError::UnknownKey(k)) if k == "weird"));
}

#[test]
fn custom_content() {
    let c = parse("{custom:{id:\"time\"}}");
    assert!(matches!(&c.content, Content::Custom(d) if d.id == "time"));
}

#[test]
fn flat_compound_errors() {
    assert!(matches!(TextComponent::from_snbt("{score:{name:5, objective:\"o\"}}"), Err(SnbtError::WrongContentType(k)) if k == "name"));
    assert!(matches!(TextComponent::from_snbt("{score:{who:\"a\"}}"), Err(SnbtError::UnknownKey(k)) if k == "who"));
    assert!(matches!(
        TextComponent::from_snbt("{text:\"x\", click_event:{action:\"open_url\", link:\"u\"}}"),
        Err(SnbtError::UnknownKey(k)) if k == "link"
    ));
    assert!(matches!(
        TextComponent::from_snbt("{text:\"x\", click_event:{action:\"change_page\", page:-1}}"),
        Err(SnbtError::WrongContentType(k)) if k == "page"
    ));
    assert!(matches!(
        TextComponent::from_snbt("{text:\"x\", click_event:{action:\"fly\"}}"),
        Err(SnbtError::WrongContentType(k)) if k == "action"
    ));
    assert!(matches!(TextComponent::from_snbt("{custom:{}}"), Err(SnbtError::Required(a, b)) if a == "Custom" && b == "id"));
}

#[test]
fn later_values_win() {
    let c = parse("{score:{name:\"a\", objective:\"o\", name:\"b\"}}");
    assert!(matches!(&c.content, Content::Resolvable(Resolvable::Scoreboard { selector, .. }) if selector == "b"));
    let k = parse("{text:\"x\", click_event:{action:\"open_file\", action:\"run_command\", command:\"/c\"}}");
    assert!(matches!(&k.interactions.click, Some(ClickEvent::RunCommand { command }) if command == "/c"));
}

#[test]
fn player_id_and_properties() {
    let c = parse("{object:\"player\", player:{id:[I;1,2,3,4], properties:[{name:\"textures\", value:\"v\", signature:\"s\"}, {name:\"n\", value:\"w\"}]}}");
    match &c.content {
        Content::Object(Object::Player { player, hat }) => {
            assert_eq!(player.id, Some([1, 2, 3, 4]));
            assert_eq!(player.properties.len(), 2);
            assert_eq!(player.properties[0].signature.as_deref(), Some("s"));
            assert!(hat);
        },
        _ => panic!("not a head"),
    }
    assert!(matches!(TextComponent::from_snbt("{player:{id:[1,2,3]}}"), Err(SnbtError::UnfinishedComponent(_))));
    assert!(matches!(TextComponent::from_snbt("{player:{id:[1b,2,3,4]}}"), Err(SnbtError::Required(a, b)) if a == "Player id" && b == "ints"));
}
