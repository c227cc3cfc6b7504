use std::cell::Cell;
use text_components::content::{Content, NbtSource, ObjectPlayer, Resolvable};
use text_components::custom::{CustomData, Payload};
use text_components::format::Color;
use text_components::interactivity::{ClickEvent, HoverEvent};
use text_components::resolving::{NoResolutor, TextResolutor};
use text_components::translation::{TranslatedMessage, Translation};
use text_components::{Modifier, TextComponent};

struct Host {
    calls: Cell<u32>,
}

impl TextResolutor for Host {
    fn resolve_content(&self, resolvable: &Resolvable) -> TextComponent {
        self.calls.set(self.calls.get() + 1);
        match resolvable {
            Resolvable::Scoreboard { .. } => TextComponent::plain("5").color(Color::Gold).insertion("score"),
            Resolvable::Entity { .. } => TextComponent::plain("Steve").add_child(TextComponent::plain("!")),
            Resolvable::NBT { .. } => TextComponent::plain("{}"),
        }
    }

    fn resolve_custom(&self, data: &CustomData) -> Option<TextComponent> {
        self.calls.set(self.calls.get() + 1);
        if data.id == "time" {
            Some(TextComponent::plain("noon"))
        } else {
            None
        }
    }

    fn translate(&self, key: &str) -> Option<String> {
        match key {
            "greet" => Some(String::from("Hello %s and %s!")),
            "swap" => Some(String::from("%2$s before %1$s")),
            _ => None,
        }
    }
}

fn host() -> Host {
    Host { calls: Cell::new(0) }
}

fn has_placeholder(c: &TextComponent) -> bool {
    let own = matches!(c.content, Content::Resolvable(_) | Content::Custom(_));
    let args = match &c.content {
        Content::Translate(m) => m.args.as_ref().map_or(false, |a| a.iter().any(has_placeholder)),
        _ => false,
    };
    let hover = match &c.interactions.hover {
        Some(HoverEvent::ShowText { value }) => has_placeholder(value),
        _ => false,
    };
    own || args || hover || c.children.iter().any(has_placeholder)
}

#[test]
fn plain_text_renders() {
    let c = TextComponent::plain("Hi").add_child(TextComponent::plain(" there"));
    assert_eq!(c.to_plain(&NoResolutor), "Hi there");
}

#[test]
fn no_resolutor_labels_placeholders() {
    let c = TextComponent::scoreboard("@p", "deaths");
    assert_eq!(c.to_plain(&NoResolutor), "[Score: deaths]");
    let e = TextComponent::entity("@a", None);
    assert_eq!(e.to_plain(&NoResolutor), "[Entity: @a]");
    let n = TextComponent::nbt("Health", NbtSource::entity("@p"), false, None);
    assert_eq!(n.to_plain(&NoResolutor), "[Nbt: Health]");
    let k = TextComponent::from_custom_data(CustomData { id: String::from("time"), payload: Payload::Empty });
    assert_eq!(k.to_plain(&NoResolutor), "time");
}

#[test]
fn missing_translation_uses_fallback_or_key() {
    let m = TranslatedMessage::new("nope", None).component();
    assert_eq!(m.to_plain(&NoResolutor), "[Translation: nope]");
    let f = TranslatedMessage::new("nope", None).component_fallback("Fallback");
    assert_eq!(f.to_plain(&NoResolutor), "Fallback");
}

#[test]
fn translation_substitutes_arguments() {
    let msg = Translation::<2>("greet").message(vec![TextComponent::plain("Alex"), TextComponent::plain("Sam")]);
    let c = msg.component();
    assert_eq!(c.to_plain(&host()), "Hello Alex and Sam!");
    let swap = Translation::<2>("swap").message(vec![TextComponent::plain("A"), TextComponent::plain("B")]);
    assert_eq!(swap.component().to_plain(&host()), "B before A");
}

#[test]
fn translation_with_missing_argument_skips_it() {
    let msg = Translation::<1>("greet").message(vec![TextComponent::plain("Alex")]);
    assert_eq!(msg.component().to_plain(&host()), "Hello Alex and !");
}

#[test]
fn resolution_removes_placeholders() {
    let tree = TextComponent::new()
        .add_child(TextComponent::scoreboard("@p", "kills"))
        .add_child(TextComponent::entity("@a", Some(TextComponent::scoreboard("@s", "x"))))
        .add_child(TextComponent::from_custom_data(CustomData { id: String::from("time"), payload: Payload::Empty }))
        .add_child(TextComponent::from_custom_data(CustomData { id: String::from("other"), payload: Payload::Empty }))
        .hover_event(HoverEvent::show_text(TextComponent::nbt("Pos", NbtSource::block(1, -2, 3), true, None)))
        .add_child(Translation::<1>("greet").message(vec![TextComponent::scoreboard("@p", "y")]).component());
    assert!(has_placeholder(&tree));
    let resolved = tree.resolve(&host());
    assert!(!has_placeholder(&resolved));
    assert_eq!(resolved.to_plain(&host()), "5Steve!noonHello 5 and !");
}

#[test]
fn resolver_format_wins_node_interactions_win() {
    let node = TextComponent::scoreboard("@p", "kills")
        .color(Color::Red)
        .bold(true)
        .insertion("mine")
        .click_event(ClickEvent::run_command("/x"));
    let r = node.resolve(&host());
    assert_eq!(r.format.color, Some(Color::Gold));
    assert_eq!(r.format.bold, Some(true));
    assert_eq!(r.interactions.insertion.as_deref(), Some("mine"));
    assert!(matches!(r.interactions.click, Some(ClickEvent::RunCommand { .. })));
}

#[test]
fn children_follow_the_resolved_answer() {
    let child = TextComponent::scoreboard("@s", "c");
    let node = TextComponent::entity("@a", None).add_child(child);
    let r = node.resolve(&host());
    assert_eq!(r.children.len(), 2);
    let alone = TextComponent::scoreboard("@s", "c").resolve(&host());
    assert_eq!(r.children[1].to_plain(&NoResolutor), alone.to_plain(&NoResolutor));
    assert_eq!(r.children[1].format.color, alone.format.color);
    assert_eq!(r.children[1].interactions.insertion, alone.interactions.insertion);
}

#[test]
fn building_resolved_tree_never_asks_for_content() {
    let h = host();
    let tree = TextComponent::new().add_child(TextComponent::scoreboard("@p", "kills"));
    let resolved = tree.resolve(&h);
    assert_eq!(h.calls.get(), 1);
    let again = resolved.resolve(&h);
    assert_eq!(h.calls.get(), 1);
    assert_eq!(again.to_plain(&h), "5");
    assert_eq!(h.calls.get(), 1);
    let _ = resolved.to_pretty(&h);
    assert_eq!(h.calls.get(), 1);
}

#[test]
fn unknown_custom_becomes_empty() {
    let c = TextComponent::from_custom_data(CustomData { id: String::from("zzz"), payload: Payload::Empty }).bold(true);
    let r = c.resolve(&host());
    assert!(matches!(&r.content, Content::Text(t) if t.is_empty()));
    assert_eq!(r.format.bold, Some(true));
}

#[test]
fn head_labels() {
    assert_eq!(TextComponent::player_head(ObjectPlayer::name("Jeb_"), true).to_plain(&NoResolutor), "[Head: Jeb_]");
    assert_eq!(TextComponent::player_head(ObjectPlayer::id([1, -2, 3, 4]), true).to_plain(&NoResolutor), "[Head: [1, -2, 3, 4]]");
    assert_eq!(TextComponent::player_head(ObjectPlayer::texture("t"), true).to_plain(&NoResolutor), "[Head]");
    assert_eq!(TextComponent::atlas("item/x", None).to_plain(&NoResolutor), "[Object: item/x]");
}

#[test]
fn keybind_label() {
    let c = TextComponent::with_content(Content::Keybind(String::from("key.jump")));
    assert_eq!(c.to_plain(&NoResolutor), "[Keybind: key.jump]");
}

#[test]
fn nbt_source_block_coordinates() {
    match NbtSource::block(1, -20, 300) {
        NbtSource::Block(s) => assert_eq!(s, "1 -20 300"),
        _ => panic!("wrong source"),
    }
    match NbtSource::block(i32::MIN, 0, i32::MAX) {
        NbtSource::Block(s) => assert_eq!(s, "-2147483648 0 2147483647"),
        _ => panic!("wrong source"),
    }
}

#[test]
fn default_separators() {
    let e = Resolvable::entity_separator();
    assert!(matches!(&e.content, Content::Text(t) if t == ", "));
    assert_eq!(e.format.color, Some(Color::Gray));
    let n = Resolvable::nbt_separator();
    assert!(matches!(&n.content, Content::Text(t) if t == ", "));
    assert_eq!(n.format.color, None);
}

#[test]
fn player_property_constructor() {
    let p = ObjectPlayer::property("abc", Some("sig"));
    assert_eq!(p.properties.len(), 1);
    assert_eq!(p.properties[0].name, "textures");
    assert_eq!(p.properties[0].value, "abc");
    assert_eq!(p.properties[0].signature.as_deref(), Some("sig"));
    assert!(!p.is_empty());
}
