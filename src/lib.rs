//! A recursive rich-text component tree with formatting and interactions, a resolution
//! pass that expands placeholders through a host-supplied resolver, builders that render
//! resolved trees, and parsers for the textual and tag-tree encodings.
use vstd::prelude::*;

pub mod chars;
pub mod content;
pub mod custom;
pub mod decode;
pub mod fmt;
pub mod format;
pub mod interactivity;
pub mod nbt;
pub mod parse;
pub mod resolving;
pub mod styled;
pub mod text;
pub mod translation;

use crate::content::{Content, ContentModel, NbtSource, Object, ObjectPlayer, Resolvable, content_view};
use crate::custom::CustomData;
use crate::format::{Color, Format, FormatModel, empty_format};
use crate::interactivity::{
    ClickEvent, HoverEvent, Interactivity, InteractivityModel, empty_interactions, interactivity_view,
};
use crate::text::owned;
use crate::translation::TranslatedMessage;

verus! {

/// A node of the rich-text tree: its content, ordered children, format and interactions.
#[derive(Debug)]
pub struct TextComponent {
    pub content: Content,
    pub children: Vec<TextComponent>,
    pub format: Format,
    pub interactions: Interactivity,
}

/// The mathematical value of a [TextComponent].
pub struct ComponentModel {
    pub content: ContentModel,
    pub children: Seq<ComponentModel>,
    pub format: FormatModel,
    pub interactions: InteractivityModel,
}

/// The model of a component.
pub open spec fn component_view(c: TextComponent) -> ComponentModel
    decreases c,
{
    ComponentModel {
        content: content_view(c.content),
        children: components_view(c.children),
        format: c.format@,
        interactions: interactivity_view(c.interactions),
    }
}

/// The models of a list of components, in order.
pub open spec fn components_view(v: Vec<TextComponent>) -> Seq<ComponentModel>
    decreases v,
{
    Seq::new(
        v@.len(),
        |i: int|
            if 0 <= i < v@.len() {
                component_view(v@[i])
            } else {
                arbitrary()
            },
    )
}

impl View for TextComponent {
    type V = ComponentModel;

    open spec fn view(&self) -> ComponentModel {
        component_view(*self)
    }
}

/// A component with the given content, no children, and nothing set.
pub open spec fn content_only(content: ContentModel) -> ComponentModel {
    ComponentModel {
        content,
        children: Seq::empty(),
        format: empty_format(),
        interactions: empty_interactions(),
    }
}

/// A copy of a list of components.
pub fn copy_components(v: &Vec<TextComponent>) -> (r: Vec<TextComponent>)
    ensures
        components_view(r) == components_view(*v),
    decreases v,
{
    let mut out: Vec<TextComponent> = Vec::new();
    let mut i: usize = 0;
    while i < v.len()
        invariant
            i <= v@.len(),
            out@.len() == i,
            forall|j: int| 0 <= j < i ==> (#[trigger] out@[j])@ == v@[j]@,
        decreases v@.len() - i,
    {
        proof {
            assert(decreases_to!(*v => v@[i as int]));
        }
        out.push(v[i].copy());
        i += 1;
    }
    assert(components_view(out) =~= components_view(*v));
    out
}

impl Default for TextComponent {
    fn default() -> (r: TextComponent)
        ensures
            r@ == content_only(ContentModel::Text(Seq::empty())),
    {
        TextComponent::new()
    }
}

impl TextComponent {
    /// An empty text component, useful as a parent.
    pub fn new() -> (r: TextComponent)
        ensures
            r@ == content_only(ContentModel::Text(Seq::empty())),
    {
        Self::with_content(Content::Text(String::new()))
    }

    /// A component showing `content`, with no children and nothing set.
    pub fn with_content(content: Content) -> (r: TextComponent)
        ensures
            r@ == content_only(content@),
    {
        let r = TextComponent { content, children: Vec::new(), format: Format::new(), interactions: Interactivity::new() };
        assert(r@.children =~= Seq::empty());
        r
    }

    /// A component of plain text.
    pub fn plain(text: &str) -> (r: TextComponent)
        ensures
            r@ == content_only(ContentModel::Text(text@)),
    {
        Self::with_content(Content::Text(owned(text)))
    }

    /// A component showing a translated message.
    pub fn translated(message: TranslatedMessage) -> (r: TextComponent)
        ensures
            r@ == content_only(ContentModel::Translate(message@)),
    {
        Self::with_content(Content::Translate(message))
    }

    /// A component showing a sprite of a texture atlas; no atlas means the default one.
    pub fn atlas(sprite: &str, atlas: Option<&str>) -> (r: TextComponent)
        ensures
            r@ == content_only(ContentModel::Object(content::ObjectModel::Atlas {
                atlas: match atlas { Some(a) => Some(a@), None => None },
                sprite: sprite@,
            })),
    {
        let atlas = match atlas {
            Some(a) => Some(owned(a)),
            None => None,
        };
        Self::with_content(Content::Object(Object::Atlas { atlas, sprite: owned(sprite) }))
    }

    /// A component showing the head of a player, with or without the hat layer.
    pub fn player_head(player: ObjectPlayer, hat: bool) -> (r: TextComponent)
        ensures
            r@ == content_only(ContentModel::Object(content::ObjectModel::Player { player: player@, hat })),
    {
        Self::with_content(Content::Object(Object::Player { player, hat }))
    }

    /// A component showing the score of `selector` in `objective`.
    pub fn scoreboard(selector: &str, objective: &str) -> (r: TextComponent)
        ensures
            r@ == content_only(ContentModel::Resolvable(content::ResolvableModel::Scoreboard {
                selector: selector@,
                objective: objective@,
            })),
    {
        Self::with_content(Content::Resolvable(Resolvable::Scoreboard { selector: owned(selector), objective: owned(objective) }))
    }

    /// A component listing the entities that `selector` picks, joined by `separator`
    /// (a grey `, ` when none is given).
    pub fn entity(selector: &str, separator: Option<TextComponent>) -> (r: TextComponent)
        ensures
            r@.content is Resolvable,
            r@.content->Resolvable_0 is Entity,
            r@.content->Resolvable_0->Entity_selector == selector@,
            separator is Some ==> r@.content->Resolvable_0->Entity_separator == Box::new(separator->0@),
            separator is None ==> r@.content->Resolvable_0->Entity_separator == Box::new(content::entity_separator_model()),
            r@.children.len() == 0,
            r@.format == empty_format(),
            r@.interactions == empty_interactions(),
    {
        let separator = match separator {
            Some(s) => Box::new(s),
            None => Resolvable::entity_separator(),
        };
        Self::with_content(Content::Resolvable(Resolvable::Entity { selector: owned(selector), separator }))
    }

    /// A component showing the NBT data at `path` in `source`, joined by `separator`
    /// (a plain `, ` when none is given); `interpret` reads the data as a component.
    pub fn nbt(path: &str, source: NbtSource, interpret: bool, separator: Option<TextComponent>) -> (r: TextComponent)
        ensures
            r@.content is Resolvable,
            r@.content->Resolvable_0 is NBT,
            r@.content->Resolvable_0->NBT_path == path@,
            r@.content->Resolvable_0->NBT_source == source@,
            r@.content->Resolvable_0->NBT_interpret == (if interpret { Some(true) } else { None::<bool> }),
            separator is Some ==> r@.content->Resolvable_0->NBT_separator == Box::new(separator->0@),
            separator is None ==> r@.content->Resolvable_0->NBT_separator == Box::new(content::nbt_separator_model()),
            r@.children.len() == 0,
            r@.format == empty_format(),
            r@.interactions == empty_interactions(),
    {
        let separator = match separator {
            Some(s) => Box::new(s),
            None => Resolvable::nbt_separator(),
        };
        let interpret = if interpret { Some(true) } else { None };
        Self::with_content(Content::Resolvable(Resolvable::NBT { path: owned(path), interpret, separator, source }))
    }

    /// A component showing custom content of a registry.
    pub fn custom<T: crate::custom::CustomContent>(content: T) -> (r: TextComponent)
        ensures
            r@.content is Custom,
            r@.children.len() == 0,
            r@.format == empty_format(),
            r@.interactions == empty_interactions(),
    {
        Self::from_custom_data(content.as_data())
    }

    /// A component showing the custom content that `data` refers to.
    pub fn from_custom_data(data: CustomData) -> (r: TextComponent)
        ensures
            r@ == content_only(ContentModel::Custom(data@)),
    {
        Self::with_content(Content::Custom(data))
    }

    /// A copy of this component.
    pub fn copy(&self) -> (r: TextComponent)
        ensures
            r@ == self@,
        decreases self,
    {
        TextComponent {
            content: self.content.copy(),
            children: copy_components(&self.children),
            format: self.format.copy(),
            interactions: self.interactions.copy(),
        }
    }
}

/// Builder-style changes to a component.
pub trait Modifier: Sized {
    /// Adds a child at the end.
    fn add_child(self, child: TextComponent) -> TextComponent;

    /// Adds children at the end, in order.
    fn add_children(self, children: Vec<TextComponent>) -> TextComponent;

    /// Sets the text inserted into the chat on shift-click.
    fn insertion(self, insertion: &str) -> TextComponent;

    /// Sets the click event.
    fn click_event(self, click: ClickEvent) -> TextComponent;

    /// Sets the hover event.
    fn hover_event(self, hover: HoverEvent) -> TextComponent;

    /// Sets the colour.
    fn color(self, color: Color) -> TextComponent;

    /// Sets the colour from `#rrggbb`.
    fn color_hex(self, color: &str) -> TextComponent;

    /// Sets the font.
    fn font(self, font: String) -> TextComponent;

    /// Sets bold.
    fn bold(self, value: bool) -> TextComponent;

    /// Sets italic.
    fn italic(self, value: bool) -> TextComponent;

    /// Sets underline.
    fn underline(self, value: bool) -> TextComponent;

    /// Sets strikethrough.
    fn strikethrough(self, value: bool) -> TextComponent;

    /// Sets obfuscation.
    fn obfuscated(self, value: bool) -> TextComponent;

    /// Sets the shadow colour.
    fn shadow_color(self, a: u8, r: u8, g: u8, b: u8) -> TextComponent;

    /// Sets every format field to its default.
    fn reset(self) -> TextComponent;
}

impl Modifier for TextComponent {
    fn add_child(self, child: TextComponent) -> (r: TextComponent)
        ensures
            r@ == (ComponentModel { children: self@.children.push(child@), ..self@ }),
    {
        let mut c = self;
        c.children.push(child);
        assert(c@.children =~= self@.children.push(child@));
        c
    }

    fn add_children(self, children: Vec<TextComponent>) -> (r: TextComponent)
        ensures
            r@ == (ComponentModel { children: self@.children + components_view(children), ..self@ }),
    {
        let mut c = self;
        let mut rest = children;
        c.children.append(&mut rest);
        assert(c@.children =~= self@.children + components_view(children));
        c
    }

    fn insertion(self, insertion: &str) -> (r: TextComponent)
        ensures
            r@ == (ComponentModel {
                interactions: InteractivityModel { insertion: Some(insertion@), ..self@.interactions },
                ..self@
            }),
    {
        let mut c = self;
        c.interactions.insertion = Some(owned(insertion));
        c
    }

    fn click_event(self, click: ClickEvent) -> (r: TextComponent)
        ensures
            r@ == (ComponentModel {
                interactions: InteractivityModel { click: Some(click@), ..self@.interactions },
                ..self@
            }),
    {
        let mut c = self;
        c.interactions.click = Some(click);
        c
    }

    fn hover_event(self, hover: HoverEvent) -> (r: TextComponent)
        ensures
            r@ == (ComponentModel {
                interactions: InteractivityModel { hover: Some(hover@), ..self@.interactions },
                ..self@
            }),
    {
        let mut c = self;
        c.interactions.hover = Some(hover);
        c
    }

    fn color(self, color: Color) -> (r: TextComponent)
        ensures
            r@ == (ComponentModel { format: FormatModel { color: Some(color), ..self@.format }, ..self@ }),
    {
        let TextComponent { content, children, format, interactions } = self;
        TextComponent { content, children, format: format.color(color), interactions }
    }

    fn color_hex(self, color: &str) -> (r: TextComponent)
        ensures
            format::hex_color(color@) is Some ==> r@ == (ComponentModel {
                format: FormatModel { color: format::hex_color(color@), ..self@.format },
                ..self@
            }),
            format::hex_color(color@) is None ==> r@ == self@,
    {
        let TextComponent { content, children, format, interactions } = self;
        TextComponent { content, children, format: format.color_hex(color), interactions }
    }

    fn font(self, font: String) -> (r: TextComponent)
        ensures
            r@ == (ComponentModel { format: FormatModel { font: Some(font@), ..self@.format }, ..self@ }),
    {
        let TextComponent { content, children, format, interactions } = self;
        TextComponent { content, children, format: format.font(font), interactions }
    }

    fn bold(self, value: bool) -> (r: TextComponent)
        ensures
            r@ == (ComponentModel { format: FormatModel { bold: Some(value), ..self@.format }, ..self@ }),
    {
        let TextComponent { content, children, format, interactions } = self;
        TextComponent { content, children, format: format.bold(value), interactions }
    }

    fn italic(self, value: bool) -> (r: TextComponent)
        ensures
            r@ == (ComponentModel { format: FormatModel { italic: Some(value), ..self@.format }, ..self@ }),
    {
        let TextComponent { content, children, format, interactions } = self;
        TextComponent { content, children, format: format.italic(value), interactions }
    }

    fn underline(self, value: bool) -> (r: TextComponent)
        ensures
            r@ == (ComponentModel { format: FormatModel { underline: Some(value), ..self@.format }, ..self@ }),
    {
        let TextComponent { content, children, format, interactions } = self;
        TextComponent { content, children, format: format.underline(value), interactions }
    }

    fn strikethrough(self, value: bool) -> (r: TextComponent)
        ensures
            r@ == (ComponentModel { format: FormatModel { strikethrough: Some(value), ..self@.format }, ..self@ }),
    {
        let TextComponent { content, children, format, interactions } = self;
        TextComponent { content, children, format: format.strikethrough(value), interactions }
    }

    fn obfuscated(self, value: bool) -> (r: TextComponent)
        ensures
            r@ == (ComponentModel { format: FormatModel { obfuscated: Some(value), ..self@.format }, ..self@ }),
    {
        let TextComponent { content, children, format, interactions } = self;
        TextComponent { content, children, format: format.obfuscated(value), interactions }
    }

    fn shadow_color(self, a: u8, r: u8, g: u8, b: u8) -> (out: TextComponent)
        ensures
            out@ == (ComponentModel {
                format: FormatModel { shadow_color: Some(format::argb(a, r, g, b) as u32), ..self@.format },
                ..self@
            }),
    {
        let TextComponent { content, children, format, interactions } = self;
        TextComponent { content, children, format: format.shadow_color(a, r, g, b), interactions }
    }

    fn reset(self) -> (r: TextComponent)
        ensures
            r@ == (ComponentModel { format: format::reset_format(), ..self@ }),
    {
        let TextComponent { content, children, format, interactions } = self;
        TextComponent { content, children, format: format.reset(), interactions }
    }
}

} // verus!
