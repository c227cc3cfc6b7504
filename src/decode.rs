//! Decoding of tag trees back into components.
use vstd::prelude::*;
use crate::content::{Content, ContentModel, NbtSource, Object, ObjectModel, ObjectPlayer, PlayerModel, PlayerProperties, PropertyModel, Resolvable, ResolvableModel, SourceModel, entity_separator_model, nbt_separator_model};
use crate::custom::CustomModel;
use crate::custom::{CustomData, Payload};
use crate::format::Format;
use crate::interactivity::{ClickEvent, HoverEvent, Interactivity};
use crate::format::FormatModel;
use crate::interactivity::{ClickModel, HoverModel, InteractivityModel};
use crate::nbt::{NbtCompound, NbtTag, TagModel, entries_view, find, lookup, tag_view, tags_view};
use crate::parse::{color_of, uuid_ints, uuid_value};
use crate::parse::{color_from_name, parse_uuid_text};
use crate::text::{chars_of, copy_string, is_word};
use crate::translation::TranslatedMessage;
use crate::translation::MessageModel;
use crate::{ComponentModel, Modifier, TextComponent, components_view, content_only};

verus! {

/// The text of a string tag.
pub open spec fn text_of(t: Option<TagModel>) -> Option<Seq<char>> {
    match t {
        Some(TagModel::String(s)) => Some(s),
        _ => None,
    }
}

/// A flag read from a byte (true unless zero) or from the string `true` or `false`.
pub open spec fn flag_of(t: Option<TagModel>) -> Option<bool> {
    match t {
        Some(TagModel::Byte(v)) => Some(v != 0),
        Some(TagModel::String(s)) => if s == "true"@ {
            Some(true)
        } else if s == "false"@ {
            Some(false)
        } else {
            None
        },
        _ => None,
    }
}

/// The string stored under `key`, when that tag is a string.
fn string_at<'a>(c: &'a NbtCompound, key: &str) -> (r: Option<&'a String>)
    ensures
        match r {
            Some(s) => text_of(lookup(entries_view(c.entries), key@)) == Some(s@),
            None => text_of(lookup(entries_view(c.entries), key@)) is None,
        },
{
    match c.get(key) {
        Some(NbtTag::String(s)) => Some(s),
        _ => None,
    }
}

fn owned_at(c: &NbtCompound, key: &str) -> (r: Option<String>)
    ensures
        crate::text::opt_view(r) == text_of(lookup(entries_view(c.entries), key@)),
{
    match string_at(c, key) {
        Some(s) => Some(copy_string(s)),
        None => None,
    }
}

fn string_is(s: &String, w: &str) -> (r: bool)
    ensures
        r == (s@ == w@),
{
    let cs = chars_of(s.as_str());
    is_word(&cs, w)
}

/// A flag stored under `key`: a byte (true unless zero) or the string `true` or `false`.
fn flag_at(c: &NbtCompound, key: &str) -> (r: Option<bool>)
    ensures
        r == flag_of(lookup(entries_view(c.entries), key@)),
{
    match c.get(key) {
        Some(NbtTag::Byte(v)) => Some(*v != 0),
        Some(NbtTag::String(s)) => {
            if string_is(s, "true") {
                Some(true)
            } else if string_is(s, "false") {
                Some(false)
            } else {
                None
            }
        },
        _ => None,
    }
}

/// The format that the named tags `e` describe: a colour name or `#rrggbb`, a font, the five
/// flags (`underlined` for underline) and a numeric shadow colour; other fields stay unset.
pub open spec fn format_of(e: Seq<(Seq<char>, TagModel)>) -> FormatModel {
    FormatModel {
        color: match text_of(lookup(e, "color"@)) {
            Some(s) => color_of(s),
            None => None,
        },
        font: text_of(lookup(e, "font"@)),
        bold: flag_of(lookup(e, "bold"@)),
        italic: flag_of(lookup(e, "italic"@)),
        underline: flag_of(lookup(e, "underlined"@)),
        strikethrough: flag_of(lookup(e, "strikethrough"@)),
        obfuscated: flag_of(lookup(e, "obfuscated"@)),
        shadow_color: match lookup(e, "shadow_color"@) {
            Some(TagModel::Short(n)) => Some(n as u32),
            Some(TagModel::Int(n)) => Some(n as u32),
            Some(TagModel::Long(n)) => Some(n as u32),
            _ => None,
        },
    }
}

/// The click event that the named tags `e` describe: `action` names it and the field it
/// needs must be a string (`page` a non-negative int).
pub open spec fn click_of(e: Seq<(Seq<char>, TagModel)>) -> Option<ClickModel> {
    match text_of(lookup(e, "action"@)) {
        None => None,
        Some(a) => if a == "open_url"@ {
            match text_of(lookup(e, "url"@)) { Some(url) => Some(ClickModel::OpenUrl { url }), None => None }
        } else if a == "open_file"@ {
            match text_of(lookup(e, "path"@)) { Some(path) => Some(ClickModel::OpenFile { path }), None => None }
        } else if a == "run_command"@ {
            match text_of(lookup(e, "command"@)) { Some(command) => Some(ClickModel::RunCommand { command }), None => None }
        } else if a == "suggest_command"@ {
            match text_of(lookup(e, "command"@)) { Some(command) => Some(ClickModel::SuggestCommand { command }), None => None }
        } else if a == "change_page"@ {
            match lookup(e, "page"@) {
                Some(TagModel::Int(page)) => if page >= 0 { Some(ClickModel::ChangePage { page: page as u32 }) } else { None },
                _ => None,
            }
        } else if a == "copy_to_clipboard"@ {
            match text_of(lookup(e, "value"@)) { Some(value) => Some(ClickModel::CopyToClipboard { value }), None => None }
        } else if a == "show_dialog"@ {
            match text_of(lookup(e, "dialog"@)) { Some(dialog) => Some(ClickModel::ShowDialog { dialog }), None => None }
        } else if a == "custom"@ {
            match text_of(lookup(e, "id"@)) { Some(id) => Some(ClickModel::Custom { id, payload: text_of(lookup(e, "payload"@)) }), None => None }
        } else {
            None
        },
    }
}

/// The component a tag describes: a non-empty string is plain text, a list gives the
/// children of an empty parent (items that describe nothing are skipped), a compound is read
/// field by field; anything else describes nothing.
pub open spec fn decode(t: TagModel) -> Option<ComponentModel>
    decreases t, 3nat,
{
    match t {
        TagModel::String(s) => if s.len() == 0 {
            None
        } else {
            Some(content_only(ContentModel::Text(s)))
        },
        TagModel::List(items) => Some(
            ComponentModel { children: decode_all(items, items.len()), ..content_only(ContentModel::Text(Seq::empty())) },
        ),
        TagModel::Compound(e) => decode_compound(e),
        _ => None,
    }
}

/// The components the first `n` tags describe, skipping those that describe nothing.
pub open spec fn decode_all(items: Seq<TagModel>, n: nat) -> Seq<ComponentModel>
    decreases items, n,
{
    if n == 0 || n > items.len() {
        Seq::empty()
    } else {
        decode_all(items, (n - 1) as nat) + match decode(items[n - 1]) {
            Some(c) => seq![c],
            None => Seq::empty(),
        }
    }
}

/// The children listed under `extra`.
pub open spec fn extra_of(e: Seq<(Seq<char>, TagModel)>) -> Seq<ComponentModel>
    decreases e, 1nat,
{
    let j = find(e, "extra"@);
    if 0 <= j < e.len() && e[j].1 is List {
        decode_all(e[j].1->List_0, e[j].1->List_0.len())
    } else {
        Seq::empty()
    }
}

/// The component a compound describes: what its unnamed string or list describes, if it has
/// one; otherwise its content (required), its children, format and interactions.
pub open spec fn decode_compound(e: Seq<(Seq<char>, TagModel)>) -> Option<ComponentModel>
    decreases e, 2nat,
{
    let i = find(e, Seq::empty());
    if 0 <= i < e.len() && (e[i].1 is String || e[i].1 is List) {
        decode(e[i].1)
    } else {
        match content_of(e) {
            None => None,
            Some(content) => Some(ComponentModel {
                content,
                children: extra_of(e),
                format: format_of(e),
                interactions: interactions_of(e),
            }),
        }
    }
}

/// The separator stored under `separator`, or the default one.
pub open spec fn separator_of(e: Seq<(Seq<char>, TagModel)>, entity: bool) -> ComponentModel
    decreases e, 0nat,
{
    let j = find(e, "separator"@);
    let default = if entity { entity_separator_model() } else { nbt_separator_model() };
    if 0 <= j < e.len() {
        match decode(e[j].1) {
            Some(c) => c,
            None => default,
        }
    } else {
        default
    }
}

/// Where NBT content reads from: the tag `source` names, if it names `block`, `entity` or
/// `storage` (an empty block when that tag is missing), else the first of those tags present.
pub open spec fn source_of(e: Seq<(Seq<char>, TagModel)>) -> SourceModel {
    let block = text_of(lookup(e, "block"@));
    let entity = text_of(lookup(e, "entity"@));
    let storage = text_of(lookup(e, "storage"@));
    let named = match text_of(lookup(e, "source"@)) {
        Some(k) => if k == "block"@ {
            Some(match block { Some(b) => SourceModel::Block(b), None => SourceModel::Block(Seq::empty()) })
        } else if k == "entity"@ {
            Some(match entity { Some(x) => SourceModel::Entity(x), None => SourceModel::Block(Seq::empty()) })
        } else if k == "storage"@ {
            Some(match storage { Some(x) => SourceModel::Storage(x), None => SourceModel::Block(Seq::empty()) })
        } else {
            None
        },
        None => None,
    };
    match named {
        Some(s) => s,
        None => match block {
            Some(b) => SourceModel::Block(b),
            None => match entity {
                Some(x) => SourceModel::Entity(x),
                None => match storage {
                    Some(x) => SourceModel::Storage(x),
                    None => SourceModel::Block(Seq::empty()),
                },
            },
        },
    }
}

/// The skin properties among the first `n` tags: compounds with string `name` and `value`.
pub open spec fn properties_of(items: Seq<TagModel>, n: nat) -> Seq<PropertyModel>
    decreases n,
{
    if n == 0 || n > items.len() {
        Seq::empty()
    } else {
        properties_of(items, (n - 1) as nat) + match items[n - 1] {
            TagModel::Compound(c) => match (text_of(lookup(c, "name"@)), text_of(lookup(c, "value"@))) {
                (Some(name), Some(value)) => seq![PropertyModel { name, value, signature: text_of(lookup(c, "signature"@)) }],
                _ => Seq::empty(),
            },
            _ => Seq::empty(),
        }
    }
}

/// Four ints, when `v` has exactly four.
pub open spec fn four_ints(v: Seq<i32>) -> Option<[i32; 4]> {
    if v.len() == 4 {
        Some([v[0], v[1], v[2], v[3]])
    } else {
        None
    }
}

/// The player reference a compound describes.
pub open spec fn player_of(p: Seq<(Seq<char>, TagModel)>) -> PlayerModel {
    PlayerModel {
        name: text_of(lookup(p, "name"@)),
        id: match lookup(p, "id"@) {
            Some(TagModel::IntArray(v)) => four_ints(v),
            _ => None,
        },
        texture: text_of(lookup(p, "texture"@)),
        properties: match lookup(p, "properties"@) {
            Some(TagModel::List(items)) => properties_of(items, items.len()),
            _ => Seq::empty(),
        },
    }
}

/// The content a compound describes, by the first of these present: `text`, `translate`
/// (with `fallback` and `with`), `keybind`, `score` (needs `name` and `objective`),
/// `selector`, `nbt`, `sprite`, `object` (only `player`), `custom` (needs `id`).
pub open spec fn content_of(e: Seq<(Seq<char>, TagModel)>) -> Option<ContentModel>
    decreases e, 1nat,
{
    if let Some(t) = text_of(lookup(e, "text"@)) {
        Some(ContentModel::Text(t))
    } else if let Some(key) = text_of(lookup(e, "translate"@)) {
        let j = find(e, "with"@);
        Some(ContentModel::Translate(MessageModel {
            key,
            fallback: text_of(lookup(e, "fallback"@)),
            args: if 0 <= j < e.len() && e[j].1 is List {
                Some(decode_all(e[j].1->List_0, e[j].1->List_0.len()))
            } else {
                None
            },
        }))
    } else if let Some(k) = text_of(lookup(e, "keybind"@)) {
        Some(ContentModel::Keybind(k))
    } else if let Some(TagModel::Compound(sc)) = lookup(e, "score"@) {
        match (text_of(lookup(sc, "name"@)), text_of(lookup(sc, "objective"@))) {
            (Some(selector), Some(objective)) => Some(ContentModel::Resolvable(ResolvableModel::Scoreboard { selector, objective })),
            _ => None,
        }
    } else if let Some(selector) = text_of(lookup(e, "selector"@)) {
        Some(ContentModel::Resolvable(ResolvableModel::Entity { selector, separator: Box::new(separator_of(e, true)) }))
    } else if let Some(path) = text_of(lookup(e, "nbt"@)) {
        Some(ContentModel::Resolvable(ResolvableModel::NBT {
            path,
            interpret: flag_of(lookup(e, "interpret"@)),
            separator: Box::new(separator_of(e, false)),
            source: source_of(e),
        }))
    } else if let Some(sprite) = text_of(lookup(e, "sprite"@)) {
        Some(ContentModel::Object(ObjectModel::Atlas { atlas: text_of(lookup(e, "atlas"@)), sprite }))
    } else if let Some(kind) = text_of(lookup(e, "object"@)) {
        if kind == "player"@ {
            Some(ContentModel::Object(ObjectModel::Player {
                player: match lookup(e, "player"@) {
                    Some(TagModel::Compound(p)) => player_of(p),
                    _ => PlayerModel { name: None, id: None, texture: None, properties: Seq::empty() },
                },
                hat: match flag_of(lookup(e, "hat"@)) {
                    Some(h) => h,
                    None => true,
                },
            }))
        } else {
            None
        }
    } else if let Some(TagModel::Compound(c)) = lookup(e, "custom"@) {
        match text_of(lookup(c, "id"@)) {
            Some(id) => Some(ContentModel::Custom(CustomModel { id, payload: Payload::Empty })),
            None => None,
        }
    } else {
        None
    }
}

/// The uuid a tag holds: a uuid string, or four ints as an int array or a list.
pub open spec fn uuid_of_tag(t: Option<TagModel>) -> Option<[i32; 4]> {
    match t {
        Some(TagModel::String(s)) => match uuid_value(s) {
            Some((hi, lo)) => Some(uuid_ints(hi, lo)),
            None => None,
        },
        Some(TagModel::IntArray(v)) => four_ints(v),
        Some(TagModel::List(items)) => if items.len() == 4 && items[0] is Int && items[1] is Int && items[2] is Int
            && items[3] is Int {
            Some([items[0]->Int_0, items[1]->Int_0, items[2]->Int_0, items[3]->Int_0])
        } else {
            None
        },
        _ => None,
    }
}

/// The hover event a compound describes: `action` names it and the fields it needs must be
/// present (`value` a component, `id` a string, `uuid` a uuid).
pub open spec fn hover_of(h: Seq<(Seq<char>, TagModel)>) -> Option<HoverModel>
    decreases h, 0nat,
{
    match text_of(lookup(h, "action"@)) {
        None => None,
        Some(a) => if a == "show_text"@ {
            let j = find(h, "value"@);
            if 0 <= j < h.len() {
                match decode(h[j].1) {
                    Some(c) => Some(HoverModel::ShowText { value: Box::new(c) }),
                    None => None,
                }
            } else {
                None
            }
        } else if a == "show_item"@ {
            match text_of(lookup(h, "id"@)) {
                Some(id) => Some(HoverModel::ShowItem {
                    id,
                    count: match lookup(h, "count"@) { Some(TagModel::Int(n)) => Some(n), _ => None },
                    components: text_of(lookup(h, "components"@)),
                }),
                None => None,
            }
        } else if a == "show_entity"@ {
            match text_of(lookup(h, "id"@)) {
                None => None,
                Some(id) => match uuid_of_tag(lookup(h, "uuid"@)) {
                    Some(uuid) => Some(HoverModel::ShowEntity { name: text_of(lookup(h, "name"@)), id, uuid }),
                    None => None,
                },
            }
        } else {
            None
        },
    }
}

/// The overlay a compound describes.
pub open spec fn interactions_of(e: Seq<(Seq<char>, TagModel)>) -> InteractivityModel
    decreases e, 1nat,
{
    InteractivityModel {
        insertion: text_of(lookup(e, "insertion"@)),
        click: match lookup(e, "click_event"@) {
            Some(TagModel::Compound(c)) => click_of(c),
            _ => None,
        },
        hover: {
            let j = find(e, "hover_event"@);
            if 0 <= j < e.len() && e[j].1 is Compound {
                hover_of(e[j].1->Compound_0)
            } else {
                None
            }
        },
    }
}

/// The model of an optional component.
pub open spec fn opt_component(o: Option<TextComponent>) -> Option<ComponentModel> {
    match o {
        Some(c) => Some(c@),
        None => None,
    }
}

/// The components of a list tag, skipping the items that describe nothing.
fn components_of(list: &Vec<NbtTag>) -> (r: Vec<TextComponent>)
    ensures
        components_view(r) == decode_all(tags_view(*list), list@.len()),
    decreases list, 2nat,
{
    let ghost items = tags_view(*list);
    let mut out: Vec<TextComponent> = Vec::new();
    let mut i: usize = 0;
    while i < list.len()
        invariant
            i <= list@.len(),
            items == tags_view(*list),
            components_view(out) == decode_all(items, i as nat),
        decreases list@.len() - i,
    {
        proof {
            assert(decreases_to!(*list => list@[i as int]));
        }
        let ghost before = components_view(out);
        match TextComponent::from_nbt(&list[i]) {
            Some(c) => {
                let ghost cv = c@;
                out.push(c);
                assert(components_view(out) =~= before + seq![cv]);
            },
            None => {
                assert(before + Seq::<ComponentModel>::empty() =~= before);
            },
        }
        assert(items[i as int] == tag_view(list@[i as int]));
        i += 1;
    }
    out
}

impl TextComponent {
    /// Reads a component from a tag: a non-empty string is plain text, a list gives the
    /// children of an empty parent, a compound is read field by field. Anything else, and an
    /// empty string, gives nothing.
    pub fn from_nbt(tag: &NbtTag) -> (r: Option<TextComponent>)
        ensures
            opt_component(r) == decode(tag_view(*tag)),
        decreases tag, 3nat,
    {
        match tag {
            NbtTag::String(s) => {
                if s.as_str().unicode_len() == 0 {
                    None
                } else {
                    Some(TextComponent::with_content(Content::Text(copy_string(s))))
                }
            },
            NbtTag::List(list) => {
                proof {
                    assert(decreases_to!(*tag => *list));
                }
                let kids = components_of(list);
                let r = TextComponent::new().add_children(kids);
                assert(r@.children =~= decode_all(tags_view(*list), list@.len()));
                Some(r)
            },
            NbtTag::Compound(compound) => {
                proof {
                    assert(decreases_to!(*tag => *compound));
                }
                Self::from_compound(compound)
            },
            _ => None,
        }
    }

    fn from_compound(compound: &NbtCompound) -> (r: Option<TextComponent>)
        ensures
            opt_component(r) == decode_compound(entries_view(compound.entries)),
        decreases compound, 2nat,
    {
        let ghost e = entries_view(compound.entries);
        proof {
            reveal_strlit("");
        }
        if let Some(i) = compound.position("") {
            proof {
                assert(""@ =~= Seq::<char>::empty());
                assert(decreases_to!(*compound => compound.entries));
                assert(decreases_to!(compound.entries => compound.entries@[i as int]));
                assert(decreases_to!(compound.entries@[i as int] => compound.entries@[i as int].1));
            }
            match &compound.entries[i].1 {
                NbtTag::String(_) | NbtTag::List(_) => return TextComponent::from_nbt(&compound.entries[i].1),
                _ => {},
            }
        }
        proof {
            assert(""@ =~= Seq::<char>::empty());
        }
        let children = extra_children(compound);
        let content = match Content::from_compound(compound) {
            Some(c) => c,
            None => return None,
        };
        Some(TextComponent {
            content,
            children,
            format: Format::from_compound(compound),
            interactions: Interactivity::from_compound(compound),
        })
    }
}

/// The components listed under `extra`.
fn extra_children(compound: &NbtCompound) -> (r: Vec<TextComponent>)
    ensures
        components_view(r) == extra_of(entries_view(compound.entries)),
    decreases compound, 1nat,
{
    match compound.position("extra") {
        Some(j) => {
            if let NbtTag::List(list) = &compound.entries[j].1 {
                proof {
                    assert(decreases_to!(*compound => compound.entries));
                    assert(decreases_to!(compound.entries => compound.entries@[j as int]));
                    assert(decreases_to!(compound.entries@[j as int] => compound.entries@[j as int].1));
                    assert(decreases_to!(compound.entries@[j as int].1 => *list));
                }
                components_of(list)
            } else {
                let r: Vec<TextComponent> = Vec::new();
                assert(components_view(r) =~= Seq::<ComponentModel>::empty());
                r
            }
        },
        None => {
            let r: Vec<TextComponent> = Vec::new();
            assert(components_view(r) =~= Seq::<ComponentModel>::empty());
            r
        },
    }
}

fn nbt_source(compound: &NbtCompound) -> (r: NbtSource)
    ensures
        r@ == source_of(entries_view(compound.entries)),
{
    let block = owned_at(compound, "block");
    let entity = owned_at(compound, "entity");
    let storage = owned_at(compound, "storage");
    let named = match string_at(compound, "source") {
        Some(kind) => {
            if string_is(kind, "block") {
                Some(match block { Some(b) => NbtSource::Block(b), None => NbtSource::Block(String::new()) })
            } else if string_is(kind, "entity") {
                Some(match entity { Some(x) => NbtSource::Entity(x), None => NbtSource::Block(String::new()) })
            } else if string_is(kind, "storage") {
                Some(match storage { Some(x) => NbtSource::Storage(x), None => NbtSource::Block(String::new()) })
            } else {
                None
            }
        },
        None => None,
    };
    match named {
        Some(s) => s,
        None => match (owned_at(compound, "block"), owned_at(compound, "entity"), owned_at(compound, "storage")) {
            (Some(b), _, _) => NbtSource::Block(b),
            (None, Some(x), _) => NbtSource::Entity(x),
            (None, None, Some(x)) => NbtSource::Storage(x),
            (None, None, None) => NbtSource::Block(String::new()),
        },
    }
}

fn player_of_compound(inner: &NbtCompound) -> (r: ObjectPlayer)
    ensures
        r@ == player_of(entries_view(inner.entries)),
{
    let id = match inner.get("id") {
        Some(NbtTag::IntArray(nums)) => {
            if nums.len() == 4 {
                Some([nums[0], nums[1], nums[2], nums[3]])
            } else {
                None
            }
        },
        _ => None,
    };
    let mut properties: Vec<PlayerProperties> = Vec::new();
    let ghost pv: Seq<PropertyModel> = Seq::empty();
    if let Some(NbtTag::List(items)) = inner.get("properties") {
        let ghost tv = tags_view(*items);
        let mut i: usize = 0;
        while i < items.len()
            invariant
                i <= items@.len(),
                tv == tags_view(*items),
                properties@.map_values(|p: PlayerProperties| p@) == properties_of(tv, i as nat),
            decreases items@.len() - i,
        {
            let ghost before = properties@.map_values(|p: PlayerProperties| p@);
            assert(tv[i as int] == tag_view(items@[i as int]));
            if let NbtTag::Compound(c) = &items[i] {
                if let (Some(name), Some(value)) = (owned_at(c, "name"), owned_at(c, "value")) {
                    let prop = PlayerProperties { name, value, signature: owned_at(c, "signature") };
                    let ghost pm = prop@;
                    properties.push(prop);
                    assert(properties@.map_values(|p: PlayerProperties| p@) =~= before + seq![pm]);
                } else {
                    assert(before + Seq::<PropertyModel>::empty() =~= before);
                }
            } else {
                assert(before + Seq::<PropertyModel>::empty() =~= before);
            }
            i += 1;
        }
    } else {
        assert(properties@.map_values(|p: PlayerProperties| p@) =~= Seq::<PropertyModel>::empty());
    }
    ObjectPlayer { name: owned_at(inner, "name"), id, texture: owned_at(inner, "texture"), properties }
}

impl Content {
    /// Reads the content of a compound by the first content key present.
    pub fn from_compound(compound: &NbtCompound) -> (r: Option<Content>)
        ensures
            match r {
                Some(c) => content_of(entries_view(compound.entries)) == Some(c@),
                None => content_of(entries_view(compound.entries)) is None,
            },
        decreases compound, 1nat,
    {
        let ghost e = entries_view(compound.entries);
        if let Some(t) = string_at(compound, "text") {
            return Some(Content::Text(copy_string(t)));
        }
        if let Some(key) = string_at(compound, "translate") {
            let fallback = owned_at(compound, "fallback");
            let args = match compound.position("with") {
                Some(j) => {
                    if let NbtTag::List(list) = &compound.entries[j].1 {
                        proof {
                            assert(decreases_to!(*compound => compound.entries));
                            assert(decreases_to!(compound.entries => compound.entries@[j as int]));
                            assert(decreases_to!(compound.entries@[j as int] => compound.entries@[j as int].1));
                            assert(decreases_to!(compound.entries@[j as int].1 => *list));
                        }
                        Some(components_of(list))
                    } else {
                        None
                    }
                },
                None => None,
            };
            let m = TranslatedMessage { key: copy_string(key), fallback, args };
            assert(m@ == (MessageModel { key: key@, fallback: text_of(lookup(e, "fallback"@)), args: m@.args }));
            return Some(Content::Translate(m));
        }
        if let Some(k) = string_at(compound, "keybind") {
            return Some(Content::Keybind(copy_string(k)));
        }
        if let Some(NbtTag::Compound(score)) = compound.get("score") {
            return match (owned_at(score, "name"), owned_at(score, "objective")) {
                (Some(selector), Some(objective)) => Some(Content::Resolvable(Resolvable::Scoreboard { selector, objective })),
                _ => None,
            };
        }
        if let Some(selector) = string_at(compound, "selector") {
            let separator = Self::separator_at(compound, true);
            return Some(Content::Resolvable(Resolvable::Entity { selector: copy_string(selector), separator }));
        }
        if let Some(path) = string_at(compound, "nbt") {
            let separator = Self::separator_at(compound, false);
            return Some(Content::Resolvable(Resolvable::NBT {
                path: copy_string(path),
                interpret: flag_at(compound, "interpret"),
                separator,
                source: nbt_source(compound),
            }));
        }
        if let Some(sprite) = string_at(compound, "sprite") {
            return Some(Content::Object(Object::Atlas { atlas: owned_at(compound, "atlas"), sprite: copy_string(sprite) }));
        }
        if let Some(kind) = string_at(compound, "object") {
            if !string_is(kind, "player") {
                return None;
            }
            let player = match compound.get("player") {
                Some(NbtTag::Compound(inner)) => player_of_compound(inner),
                _ => {
                    let p = ObjectPlayer { name: None, id: None, texture: None, properties: Vec::new() };
                    assert(p@.properties =~= Seq::<PropertyModel>::empty());
                    p
                },
            };
            let hat = match flag_at(compound, "hat") {
                Some(h) => h,
                None => true,
            };
            return Some(Content::Object(Object::Player { player, hat }));
        }
        if let Some(NbtTag::Compound(custom)) = compound.get("custom") {
            return match owned_at(custom, "id") {
                Some(id) => Some(Content::Custom(CustomData { id, payload: Payload::Empty })),
                None => None,
            };
        }
        None
    }

    /// The separator stored under `separator`, or the default one of entity or NBT content.
    fn separator_at(compound: &NbtCompound, entity: bool) -> (r: Box<TextComponent>)
        ensures
            r@ == separator_of(entries_view(compound.entries), entity),
        decreases compound, 0nat,
    {
        if let Some(j) = compound.position("separator") {
            proof {
                assert(decreases_to!(*compound => compound.entries));
                assert(decreases_to!(compound.entries => compound.entries@[j as int]));
                assert(decreases_to!(compound.entries@[j as int] => compound.entries@[j as int].1));
            }
            if let Some(c) = TextComponent::from_nbt(&compound.entries[j].1) {
                return Box::new(c);
            }
        }
        if entity {
            Resolvable::entity_separator()
        } else {
            Resolvable::nbt_separator()
        }
    }
}

impl Format {
    /// Reads the format fields of a compound; fields that are absent or of the wrong type
    /// stay unset.
    pub fn from_compound(compound: &NbtCompound) -> (r: Format)
        ensures
            r@ == format_of(entries_view(compound.entries)),
    {
        let mut format = Format::new();
        if let Some(c) = string_at(compound, "color") {
            let cs = chars_of(c.as_str());
            format.color = color_from_name(&cs);
        }
        format.font = owned_at(compound, "font");
        format.bold = flag_at(compound, "bold");
        format.italic = flag_at(compound, "italic");
        format.underline = flag_at(compound, "underlined");
        format.strikethrough = flag_at(compound, "strikethrough");
        format.obfuscated = flag_at(compound, "obfuscated");
        format.shadow_color = match compound.get("shadow_color") {
            Some(NbtTag::Short(n)) => Some(#[verifier::truncate] (*n as u32)),
            Some(NbtTag::Int(n)) => Some(#[verifier::truncate] (*n as u32)),
            Some(NbtTag::Long(n)) => Some(#[verifier::truncate] (*n as u32)),
            _ => None,
        };
        format
    }
}

impl Interactivity {
    /// Reads the interaction fields of a compound.
    pub fn from_compound(compound: &NbtCompound) -> (r: Interactivity)
        ensures
            r@ == interactions_of(entries_view(compound.entries)),
        decreases compound, 1nat,
    {
        let click = match compound.get("click_event") {
            Some(NbtTag::Compound(event)) => ClickEvent::from_compound(event),
            _ => None,
        };
        let hover = match compound.position("hover_event") {
            Some(j) => {
                if let NbtTag::Compound(event) = &compound.entries[j].1 {
                    proof {
                        assert(decreases_to!(*compound => compound.entries));
                        assert(decreases_to!(compound.entries => compound.entries@[j as int]));
                        assert(decreases_to!(compound.entries@[j as int] => compound.entries@[j as int].1));
                        assert(decreases_to!(compound.entries@[j as int].1 => *event));
                    }
                    HoverEvent::from_compound(event)
                } else {
                    None
                }
            },
            None => None,
        };
        Interactivity { insertion: owned_at(compound, "insertion"), click, hover }
    }
}

fn uuid_at(compound: &NbtCompound) -> (r: Option<[i32; 4]>)
    ensures
        r == uuid_of_tag(lookup(entries_view(compound.entries), "uuid"@)),
{
    match compound.get("uuid") {
        Some(NbtTag::String(s)) => parse_uuid_text(s),
        Some(NbtTag::IntArray(nums)) => {
            if nums.len() != 4 {
                return None;
            }
            Some([nums[0], nums[1], nums[2], nums[3]])
        },
        Some(NbtTag::List(items)) => {
            if items.len() != 4 {
                return None;
            }
            assert(tags_view(*items)[0] == tag_view(items@[0]));
            assert(tags_view(*items)[1] == tag_view(items@[1]));
            assert(tags_view(*items)[2] == tag_view(items@[2]));
            assert(tags_view(*items)[3] == tag_view(items@[3]));
            match (&items[0], &items[1], &items[2], &items[3]) {
                (NbtTag::Int(a), NbtTag::Int(b), NbtTag::Int(c), NbtTag::Int(d)) => Some([*a, *b, *c, *d]),
                _ => None,
            }
        },
        _ => None,
    }
}

impl HoverEvent {
    /// Reads a hover event: `action` and the fields that action needs.
    pub fn from_compound(compound: &NbtCompound) -> (r: Option<HoverEvent>)
        ensures
            match r {
                Some(h) => hover_of(entries_view(compound.entries)) == Some(h@),
                None => hover_of(entries_view(compound.entries)) is None,
            },
        decreases compound, 0nat,
    {
        let action = match string_at(compound, "action") {
            Some(a) => a,
            None => return None,
        };
        if string_is(action, "show_text") {
            match compound.position("value") {
                Some(j) => {
                    proof {
                        assert(decreases_to!(*compound => compound.entries));
                        assert(decreases_to!(compound.entries => compound.entries@[j as int]));
                        assert(decreases_to!(compound.entries@[j as int] => compound.entries@[j as int].1));
                    }
                    match TextComponent::from_nbt(&compound.entries[j].1) {
                        Some(c) => Some(HoverEvent::ShowText { value: Box::new(c) }),
                        None => None,
                    }
                },
                None => None,
            }
        } else if string_is(action, "show_item") {
            let id = match owned_at(compound, "id") {
                Some(id) => id,
                None => return None,
            };
            let count = match compound.get("count") {
                Some(NbtTag::Int(n)) => Some(*n),
                _ => None,
            };
            Some(HoverEvent::ShowItem { id, count, components: owned_at(compound, "components") })
        } else if string_is(action, "show_entity") {
            let id = match owned_at(compound, "id") {
                Some(id) => id,
                None => return None,
            };
            match uuid_at(compound) {
                Some(uuid) => Some(HoverEvent::ShowEntity { name: owned_at(compound, "name"), id, uuid }),
                None => None,
            }
        } else {
            None
        }
    }
}

impl ClickEvent {
    /// Reads a click event: `action` and the field that action needs.
    pub fn from_compound(compound: &NbtCompound) -> (r: Option<ClickEvent>)
        ensures
            match r {
                Some(c) => click_of(entries_view(compound.entries)) == Some(c@),
                None => click_of(entries_view(compound.entries)) is None,
            },
    {
        let action = match string_at(compound, "action") {
            Some(a) => a,
            None => return None,
        };
        if string_is(action, "open_url") {
            match owned_at(compound, "url") { Some(url) => Some(ClickEvent::OpenUrl { url }), None => None }
        } else if string_is(action, "open_file") {
            match owned_at(compound, "path") { Some(path) => Some(ClickEvent::OpenFile { path }), None => None }
        } else if string_is(action, "run_command") {
            match owned_at(compound, "command") { Some(command) => Some(ClickEvent::RunCommand { command }), None => None }
        } else if string_is(action, "suggest_command") {
            match owned_at(compound, "command") { Some(command) => Some(ClickEvent::SuggestCommand { command }), None => None }
        } else if string_is(action, "change_page") {
            match compound.get("page") {
                Some(NbtTag::Int(page)) => if *page >= 0 { Some(ClickEvent::ChangePage { page: *page as u32 }) } else { None },
                _ => None,
            }
        } else if string_is(action, "copy_to_clipboard") {
            match owned_at(compound, "value") { Some(value) => Some(ClickEvent::CopyToClipboard { value }), None => None }
        } else if string_is(action, "show_dialog") {
            match owned_at(compound, "dialog") { Some(dialog) => Some(ClickEvent::ShowDialog { dialog }), None => None }
        } else if string_is(action, "custom") {
            match owned_at(compound, "id") { Some(id) => Some(ClickEvent::Custom { id, payload: owned_at(compound, "payload") }), None => None }
        } else {
            None
        }
    }
}

} // verus!
