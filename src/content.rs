//! What a component shows: text, translations, keybinds, objects, custom and resolvable content.
use vstd::prelude::*;
use crate::custom::{CustomData, CustomModel};
use crate::format::{Color, Format};
use crate::interactivity::Interactivity;
use crate::text::{copy_opt_string, copy_string, opt_view, owned, push_char, push_int, int_decimal};
use crate::translation::{MessageModel, TranslatedMessage};
use crate::{ComponentModel, TextComponent, component_view};

verus! {

/// The content of one component; exactly one variant is active.
#[derive(Debug)]
pub enum Content {
    Text(String),
    Translate(TranslatedMessage),
    Keybind(String),
    Custom(CustomData),
    Object(Object),
    Resolvable(Resolvable),
}

/// The mathematical value of a [Content].
pub enum ContentModel {
    Text(Seq<char>),
    Translate(MessageModel),
    Keybind(Seq<char>),
    Custom(CustomModel),
    Object(ObjectModel),
    Resolvable(ResolvableModel),
}

/// An image: a sprite of a texture atlas, or the head of a player.
#[derive(Debug)]
pub enum Object {
    Atlas { atlas: Option<String>, sprite: String },
    Player { player: ObjectPlayer, hat: bool },
}

/// The mathematical value of an [Object].
pub enum ObjectModel {
    Atlas { atlas: Option<Seq<char>>, sprite: Seq<char> },
    Player { player: PlayerModel, hat: bool },
}

/// How a player head is found: by name, id, texture or skin properties.
#[derive(Debug)]
pub struct ObjectPlayer {
    pub name: Option<String>,
    pub id: Option<[i32; 4]>,
    pub texture: Option<String>,
    pub properties: Vec<PlayerProperties>,
}

/// The mathematical value of an [ObjectPlayer].
pub struct PlayerModel {
    pub name: Option<Seq<char>>,
    pub id: Option<[i32; 4]>,
    pub texture: Option<Seq<char>>,
    pub properties: Seq<PropertyModel>,
}

/// One skin property of a player.
#[derive(Debug)]
pub struct PlayerProperties {
    pub name: String,
    pub value: String,
    pub signature: Option<String>,
}

/// The mathematical value of a [PlayerProperties].
pub struct PropertyModel {
    pub name: Seq<char>,
    pub value: Seq<char>,
    pub signature: Option<Seq<char>>,
}

/// Content that only a resolver can turn into text.
#[derive(Debug)]
pub enum Resolvable {
    Scoreboard { selector: String, objective: String },
    Entity { selector: String, separator: Box<TextComponent> },
    NBT { path: String, interpret: Option<bool>, separator: Box<TextComponent>, source: NbtSource },
}

/// The mathematical value of a [Resolvable].
pub enum ResolvableModel {
    Scoreboard { selector: Seq<char>, objective: Seq<char> },
    Entity { selector: Seq<char>, separator: Box<ComponentModel> },
    NBT {
        path: Seq<char>,
        interpret: Option<bool>,
        separator: Box<ComponentModel>,
        source: SourceModel,
    },
}

/// Where NBT data is read from.
#[derive(Debug)]
pub enum NbtSource {
    Entity(String),
    Block(String),
    Storage(String),
}

/// The mathematical value of an [NbtSource].
pub enum SourceModel {
    Entity(Seq<char>),
    Block(Seq<char>),
    Storage(Seq<char>),
}

impl View for NbtSource {
    type V = SourceModel;

    open spec fn view(&self) -> SourceModel {
        match self {
            NbtSource::Entity(s) => SourceModel::Entity(s@),
            NbtSource::Block(s) => SourceModel::Block(s@),
            NbtSource::Storage(s) => SourceModel::Storage(s@),
        }
    }
}

impl View for PlayerProperties {
    type V = PropertyModel;

    open spec fn view(&self) -> PropertyModel {
        PropertyModel { name: self.name@, value: self.value@, signature: opt_view(self.signature) }
    }
}

impl View for ObjectPlayer {
    type V = PlayerModel;

    open spec fn view(&self) -> PlayerModel {
        PlayerModel {
            name: opt_view(self.name),
            id: self.id,
            texture: opt_view(self.texture),
            properties: self.properties@.map_values(|p: PlayerProperties| p@),
        }
    }
}

impl View for Object {
    type V = ObjectModel;

    open spec fn view(&self) -> ObjectModel {
        match self {
            Object::Atlas { atlas, sprite } => ObjectModel::Atlas { atlas: opt_view(*atlas), sprite: sprite@ },
            Object::Player { player, hat } => ObjectModel::Player { player: player@, hat: *hat },
        }
    }
}

impl View for Resolvable {
    type V = ResolvableModel;

    open spec fn view(&self) -> ResolvableModel {
        resolvable_view(*self)
    }
}

impl View for Content {
    type V = ContentModel;

    open spec fn view(&self) -> ContentModel {
        content_view(*self)
    }
}

/// The model of a resolvable placeholder.
pub open spec fn resolvable_view(r: Resolvable) -> ResolvableModel
    decreases r,
{
    match r {
        Resolvable::Scoreboard { selector, objective } => ResolvableModel::Scoreboard {
            selector: selector@,
            objective: objective@,
        },
        Resolvable::Entity { selector, separator } => ResolvableModel::Entity {
            selector: selector@,
            separator: Box::new(component_view(*separator)),
        },
        Resolvable::NBT { path, interpret, separator, source } => ResolvableModel::NBT {
            path: path@,
            interpret,
            separator: Box::new(component_view(*separator)),
            source: source@,
        },
    }
}

/// The model of a content value.
pub open spec fn content_view(c: Content) -> ContentModel
    decreases c,
{
    match c {
        Content::Text(t) => ContentModel::Text(t@),
        Content::Translate(m) => ContentModel::Translate(crate::translation::message_view(m)),
        Content::Keybind(k) => ContentModel::Keybind(k@),
        Content::Custom(d) => ContentModel::Custom(d@),
        Content::Object(o) => ContentModel::Object(o@),
        Content::Resolvable(r) => ContentModel::Resolvable(resolvable_view(r)),
    }
}

impl PlayerModel {
    /// Whether nothing identifies the player.
    pub open spec fn is_empty(self) -> bool {
        self.name is None && self.id is None && self.texture is None && self.properties.len() == 0
    }
}

/// The default separator between entities: a grey `, `.
pub open spec fn entity_separator_model() -> ComponentModel {
    ComponentModel {
        format: crate::format::FormatModel { color: Some(Color::Gray), ..crate::format::empty_format() },
        ..crate::content_only(ContentModel::Text(seq![',', ' ']))
    }
}

/// The default separator between NBT values: a plain `, `.
pub open spec fn nbt_separator_model() -> ComponentModel {
    crate::content_only(ContentModel::Text(seq![',', ' ']))
}

impl NbtSource {
    /// A source reading the entities that `selector` picks.
    pub fn entity(selector: &str) -> (r: NbtSource)
        ensures
            r@ == SourceModel::Entity(selector@),
    {
        NbtSource::Entity(owned(selector))
    }

    /// A source reading the block at the given coordinates, written `x y z`.
    pub fn block(x: i32, y: i32, z: i32) -> (r: NbtSource)
        ensures
            r@ == SourceModel::Block(
                int_decimal(x as int) + seq![' '] + int_decimal(y as int) + seq![' '] + int_decimal(z as int),
            ),
    {
        let mut s = String::new();
        push_int(&mut s, x as i64);
        push_char(&mut s, ' ');
        push_int(&mut s, y as i64);
        push_char(&mut s, ' ');
        push_int(&mut s, z as i64);
        proof {
            assert(s@ =~= int_decimal(x as int) + seq![' '] + int_decimal(y as int) + seq![' '] + int_decimal(z as int));
        }
        NbtSource::Block(s)
    }

    /// A source reading a storage identifier.
    pub fn storage(identifier: &str) -> (r: NbtSource)
        ensures
            r@ == SourceModel::Storage(identifier@),
    {
        NbtSource::Storage(owned(identifier))
    }

    /// A copy of this source.
    pub fn copy(&self) -> (r: NbtSource)
        ensures
            r@ == self@,
    {
        match self {
            NbtSource::Entity(s) => NbtSource::Entity(copy_string(s)),
            NbtSource::Block(s) => NbtSource::Block(copy_string(s)),
            NbtSource::Storage(s) => NbtSource::Storage(copy_string(s)),
        }
    }
}

impl PlayerProperties {
    /// A copy of this property.
    pub fn copy(&self) -> (r: PlayerProperties)
        ensures
            r@ == self@,
    {
        PlayerProperties {
            name: copy_string(&self.name),
            value: copy_string(&self.value),
            signature: copy_opt_string(&self.signature),
        }
    }
}

impl ObjectPlayer {
    /// A player found by name.
    pub fn name(name: &str) -> (r: ObjectPlayer)
        ensures
            r@ == (PlayerModel { name: Some(name@), id: None, texture: None, properties: seq![] }),
    {
        let r = ObjectPlayer { name: Some(owned(name)), id: None, texture: None, properties: Vec::new() };
        assert(r@.properties =~= seq![]);
        r
    }

    /// A player found by id.
    pub fn id(id: [i32; 4]) -> (r: ObjectPlayer)
        ensures
            r@ == (PlayerModel { name: None, id: Some(id), texture: None, properties: seq![] }),
    {
        let r = ObjectPlayer { name: None, id: Some(id), texture: None, properties: Vec::new() };
        assert(r@.properties =~= seq![]);
        r
    }

    /// A player head drawn from a texture path of a resource pack.
    pub fn texture(path: &str) -> (r: ObjectPlayer)
        ensures
            r@ == (PlayerModel { name: None, id: None, texture: Some(path@), properties: seq![] }),
    {
        let r = ObjectPlayer { name: None, id: None, texture: Some(owned(path)), properties: Vec::new() };
        assert(r@.properties =~= seq![]);
        r
    }

    /// A player head drawn from skin properties: a `textures` property with the given value
    /// and optional signature.
    pub fn property(value: &str, signature: Option<&str>) -> (r: ObjectPlayer)
        ensures
            r@ == (PlayerModel {
                name: None,
                id: None,
                texture: None,
                properties: seq![PropertyModel {
                    name: seq!['t', 'e', 'x', 't', 'u', 'r', 'e', 's'],
                    value: value@,
                    signature: match signature { Some(s) => Some(s@), None => None },
                }],
            }),
    {
        let name = owned("textures");
        proof {
            reveal_strlit("textures");
        }
        assert(name@ =~= seq!['t', 'e', 'x', 't', 'u', 'r', 'e', 's']);
        let sig = match signature {
            Some(s) => Some(owned(s)),
            None => None,
        };
        let mut properties = Vec::new();
        properties.push(PlayerProperties { name, value: owned(value), signature: sig });
        let r = ObjectPlayer { name: None, id: None, texture: None, properties };
        assert(r@.properties =~= seq![properties@[0]@]);
        r
    }

    /// Whether nothing identifies the player.
    pub fn is_empty(&self) -> (r: bool)
        ensures
            r == self@.is_empty(),
    {
        self.name.is_none() && self.id.is_none() && self.texture.is_none() && self.properties.len() == 0
    }

    /// A copy of this player reference.
    pub fn copy(&self) -> (r: ObjectPlayer)
        ensures
            r@ == self@,
    {
        let mut properties: Vec<PlayerProperties> = Vec::new();
        let mut i: usize = 0;
        while i < self.properties.len()
            invariant
                i <= self.properties@.len(),
                properties@.len() == i,
                forall|j: int| 0 <= j < i ==> (#[trigger] properties@[j])@ == self.properties@[j]@,
            decreases self.properties@.len() - i,
        {
            properties.push(self.properties[i].copy());
            i += 1;
        }
        let r = ObjectPlayer {
            name: copy_opt_string(&self.name),
            id: self.id,
            texture: copy_opt_string(&self.texture),
            properties,
        };
        assert(r@.properties =~= self@.properties);
        r
    }
}

impl Object {
    /// A copy of this object.
    pub fn copy(&self) -> (r: Object)
        ensures
            r@ == self@,
    {
        match self {
            Object::Atlas { atlas, sprite } => Object::Atlas { atlas: copy_opt_string(atlas), sprite: copy_string(sprite) },
            Object::Player { player, hat } => Object::Player { player: player.copy(), hat: *hat },
        }
    }
}

impl Resolvable {
    /// The default separator between entities: a grey `, `.
    pub fn entity_separator() -> (r: Box<TextComponent>)
        ensures
            r@ == entity_separator_model(),
    {
        let text = owned(", ");
        proof {
            reveal_strlit(", ");
        }
        assert(text@ =~= seq![',', ' ']);
        let c = TextComponent {
            content: Content::Text(text),
            children: Vec::new(),
            format: Format::new().color(Color::Gray),
            interactions: Interactivity::new(),
        };
        assert(c@.children =~= seq![]);
        Box::new(c)
    }

    /// The default separator between NBT values: a plain `, `.
    pub fn nbt_separator() -> (r: Box<TextComponent>)
        ensures
            r@ == nbt_separator_model(),
    {
        let text = owned(", ");
        proof {
            reveal_strlit(", ");
        }
        assert(text@ =~= seq![',', ' ']);
        let c = TextComponent {
            content: Content::Text(text),
            children: Vec::new(),
            format: Format::new(),
            interactions: Interactivity::new(),
        };
        assert(c@.children =~= seq![]);
        Box::new(c)
    }

    /// A copy of this placeholder.
    pub fn copy(&self) -> (r: Resolvable)
        ensures
            r@ == self@,
        decreases self,
    {
        match self {
            Resolvable::Scoreboard { selector, objective } => Resolvable::Scoreboard {
                selector: copy_string(selector),
                objective: copy_string(objective),
            },
            Resolvable::Entity { selector, separator } => Resolvable::Entity {
                selector: copy_string(selector),
                separator: Box::new(separator.copy()),
            },
            Resolvable::NBT { path, interpret, separator, source } => Resolvable::NBT {
                path: copy_string(path),
                interpret: *interpret,
                separator: Box::new(separator.copy()),
                source: source.copy(),
            },
        }
    }
}

impl Content {
    /// A copy of this content.
    pub fn copy(&self) -> (r: Content)
        ensures
            r@ == self@,
        decreases self,
    {
        match self {
            Content::Text(t) => Content::Text(copy_string(t)),
            Content::Translate(m) => Content::Translate(m.copy()),
            Content::Keybind(k) => Content::Keybind(copy_string(k)),
            Content::Custom(d) => Content::Custom(d.copy()),
            Content::Object(o) => Content::Object(o.copy()),
            Content::Resolvable(r) => Content::Resolvable(r.copy()),
        }
    }
}

} // verus!
