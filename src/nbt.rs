//! A tag tree (the binary tag format's values), the builder that encodes resolved
//! components into it, its textual projection, and the decoder back to components.
use vstd::prelude::*;
use crate::content::{Content, Object};
use crate::content::{ContentModel, ObjectModel, PlayerModel, PropertyModel};
use crate::format::{Color, Format, FormatModel};
use crate::interactivity::{ClickEvent, ClickModel, HoverEvent, HoverModel, Interactivity, InteractivityModel};
use crate::resolving::{BuildTarget, TextResolutor};
use crate::text::{copy_string, int_decimal, owned, push_char, push_int, push_str};
use crate::{ComponentModel, TextComponent, components_view};

verus! {

/// A tag value. Floating-point tags are not held: the component format never needs them.
#[derive(Debug)]
pub enum NbtTag {
    Byte(i8),
    Short(i16),
    Int(i32),
    Long(i64),
    ByteArray(Vec<i8>),
    String(String),
    List(Vec<NbtTag>),
    Compound(NbtCompound),
    IntArray(Vec<i32>),
    LongArray(Vec<i64>),
}

/// Named tags, in order.
#[derive(Debug)]
pub struct NbtCompound {
    pub entries: Vec<(String, NbtTag)>,
}

/// The mathematical value of an [NbtTag].
pub enum TagModel {
    Byte(i8),
    Short(i16),
    Int(i32),
    Long(i64),
    ByteArray(Seq<i8>),
    String(Seq<char>),
    List(Seq<TagModel>),
    Compound(Seq<(Seq<char>, TagModel)>),
    IntArray(Seq<i32>),
    LongArray(Seq<i64>),
}

/// The model of a tag.
pub open spec fn tag_view(t: NbtTag) -> TagModel
    decreases t,
{
    match t {
        NbtTag::Byte(n) => TagModel::Byte(n),
        NbtTag::Short(n) => TagModel::Short(n),
        NbtTag::Int(n) => TagModel::Int(n),
        NbtTag::Long(n) => TagModel::Long(n),
        NbtTag::ByteArray(v) => TagModel::ByteArray(v@),
        NbtTag::String(s) => TagModel::String(s@),
        NbtTag::List(v) => TagModel::List(tags_view(v)),
        NbtTag::Compound(c) => TagModel::Compound(entries_view(c.entries)),
        NbtTag::IntArray(v) => TagModel::IntArray(v@),
        NbtTag::LongArray(v) => TagModel::LongArray(v@),
    }
}

/// The models of a list of tags.
pub open spec fn tags_view(v: Vec<NbtTag>) -> Seq<TagModel>
    decreases v,
{
    Seq::new(v@.len(), |i: int| if 0 <= i < v@.len() { tag_view(v@[i]) } else { arbitrary() })
}

/// The models of named tags.
pub open spec fn entries_view(v: Vec<(String, NbtTag)>) -> Seq<(Seq<char>, TagModel)>
    decreases v,
{
    Seq::new(v@.len(), |i: int| if 0 <= i < v@.len() { (v@[i].0@, tag_view(v@[i].1)) } else { arbitrary() })
}

impl View for NbtTag {
    type V = TagModel;

    open spec fn view(&self) -> TagModel {
        tag_view(*self)
    }
}

/// The index of the first tag named `key` among `e[i..]`, or -1.
pub open spec fn find_from(e: Seq<(Seq<char>, TagModel)>, key: Seq<char>, i: int) -> int
    decreases e.len() - i,
{
    if i < 0 || i >= e.len() {
        -1
    } else if e[i].0 == key {
        i
    } else {
        find_from(e, key, i + 1)
    }
}

/// The index of the first tag named `key`, or -1.
pub open spec fn find(e: Seq<(Seq<char>, TagModel)>, key: Seq<char>) -> int {
    find_from(e, key, 0)
}

proof fn lemma_find_from(e: Seq<(Seq<char>, TagModel)>, key: Seq<char>, i: int)
    requires
        0 <= i,
    ensures
        find_from(e, key, i) == -1 || (i <= find_from(e, key, i) < e.len() && e[find_from(e, key, i)].0 == key),
    decreases e.len() - i,
{
    if i < e.len() && e[i].0 != key {
        lemma_find_from(e, key, i + 1);
    }
}

/// The first tag named `key` among named tags.
pub open spec fn lookup(e: Seq<(Seq<char>, TagModel)>, key: Seq<char>) -> Option<TagModel> {
    if 0 <= find(e, key) < e.len() {
        Some(e[find(e, key)].1)
    } else {
        None
    }
}

impl NbtCompound {
    /// A compound holding the given entries.
    pub fn from_values(entries: Vec<(String, NbtTag)>) -> (r: NbtCompound)
        ensures
            r.entries == entries,
    {
        NbtCompound { entries }
    }

    /// The index of the first tag named `key`, if any.
    pub fn position(&self, key: &str) -> (r: Option<usize>)
        ensures
            match r {
                Some(i) => find(entries_view(self.entries), key@) == i && i < self.entries@.len(),
                None => find(entries_view(self.entries), key@) == -1,
            },
    {
        let ghost e = entries_view(self.entries);
        proof {
            lemma_find_from(e, key@, 0);
        }
        let mut i: usize = 0;
        while i < self.entries.len()
            invariant
                i <= self.entries@.len(),
                e == entries_view(self.entries),
                find(e, key@) == find_from(e, key@, i as int),
            decreases self.entries@.len() - i,
        {
            let cs = crate::text::chars_of(self.entries[i].0.as_str());
            if crate::text::is_word(&cs, key) {
                return Some(i);
            }
            i += 1;
        }
        None
    }

    /// The first tag named `key`, if any.
    pub fn get(&self, key: &str) -> (r: Option<&NbtTag>)
        ensures
            match r {
                Some(t) => lookup(entries_view(self.entries), key@) == Some(tag_view(*t)),
                None => lookup(entries_view(self.entries), key@) is None,
            },
    {
        match self.position(key) {
            Some(i) => Some(&self.entries[i].1),
            None => None,
        }
    }
}

/// A string as a quoted literal of the textual format: `\`, line feeds and `"` are escaped.
pub open spec fn escaped(s: Seq<char>) -> Seq<char>
    decreases s.len(),
{
    if s.len() == 0 {
        Seq::empty()
    } else {
        let c = s.last();
        escaped(s.drop_last()) + (if c == '\\' {
            seq!['\\', '\\']
        } else if c == '\n' {
            seq!['\\', 'n']
        } else if c == '"' {
            seq!['\\', '"']
        } else {
            seq![c]
        })
    }
}

fn push_escaped(out: &mut String, s: &String)
    ensures
        final(out)@ == old(out)@ + seq!['"'] + escaped(s@) + seq!['"'],
{
    let cs = crate::text::chars_of(s.as_str());
    push_char(out, '"');
    let ghost start = out@;
    let mut i: usize = 0;
    while i < cs.len()
        invariant
            i <= cs@.len(),
            cs@ == s@,
            out@ == start + escaped(cs@.subrange(0, i as int)),
        decreases cs@.len() - i,
    {
        let c = cs[i];
        if c == '\\' {
            push_char(out, '\\');
            push_char(out, '\\');
        } else if c == '\n' {
            push_char(out, '\\');
            push_char(out, 'n');
        } else if c == '"' {
            push_char(out, '\\');
            push_char(out, '"');
        } else {
            push_char(out, c);
        }
        proof {
            assert(cs@.subrange(0, i + 1).drop_last() =~= cs@.subrange(0, i as int));
            assert(cs@.subrange(0, i + 1).last() == c);
        }
        assert(out@ =~= start + escaped(cs@.subrange(0, i + 1)));
        i += 1;
    }
    assert(cs@.subrange(0, cs@.len() as int) =~= cs@);
    push_char(out, '"');
}

/// The decimal forms of the first `n` bytes, each with a `b` suffix, separated by commas.
pub open spec fn bytes_text(v: Seq<i8>, n: nat) -> Seq<char>
    decreases n,
{
    if n == 0 || n > v.len() {
        Seq::empty()
    } else if n == 1 {
        int_decimal(v[0] as int) + seq!['b']
    } else {
        bytes_text(v, (n - 1) as nat) + seq![','] + int_decimal(v[n - 1] as int) + seq!['b']
    }
}

/// The decimal forms of the first `n` ints, separated by commas.
pub open spec fn ints_text(v: Seq<i32>, n: nat) -> Seq<char>
    decreases n,
{
    if n == 0 || n > v.len() {
        Seq::empty()
    } else if n == 1 {
        int_decimal(v[0] as int)
    } else {
        ints_text(v, (n - 1) as nat) + seq![','] + int_decimal(v[n - 1] as int)
    }
}

/// The decimal forms of the first `n` longs, each with an `l` suffix, separated by commas.
pub open spec fn longs_text(v: Seq<i64>, n: nat) -> Seq<char>
    decreases n,
{
    if n == 0 || n > v.len() {
        Seq::empty()
    } else if n == 1 {
        int_decimal(v[0] as int) + seq!['l']
    } else {
        longs_text(v, (n - 1) as nat) + seq![','] + int_decimal(v[n - 1] as int) + seq!['l']
    }
}

/// The textual form of a tag: numbers with their width suffix (`b`, `s`, none, `l`), arrays
/// as `[B;..]`, `[I;..]`, `[L;..]`, strings quoted and escaped, lists in brackets and
/// compounds in braces (see [compound_text]), items separated by commas.
pub open spec fn tag_text(t: TagModel) -> Seq<char>
    decreases t, 1nat,
{
    match t {
        TagModel::Byte(n) => int_decimal(n as int) + seq!['b'],
        TagModel::Short(n) => int_decimal(n as int) + seq!['s'],
        TagModel::Int(n) => int_decimal(n as int),
        TagModel::Long(n) => int_decimal(n as int) + seq!['l'],
        TagModel::ByteArray(v) => "[B;"@ + bytes_text(v, v.len()) + seq![']'],
        TagModel::String(s) => seq!['"'] + escaped(s) + seq!['"'],
        TagModel::List(items) => seq!['['] + list_text(items, items.len()) + seq![']'],
        TagModel::Compound(e) => seq!['{'] + entries_text(e, e.len()) + seq!['}'],
        TagModel::IntArray(v) => "[I;"@ + ints_text(v, v.len()) + seq![']'],
        TagModel::LongArray(v) => "[L;"@ + longs_text(v, v.len()) + seq![']'],
    }
}

/// The textual forms of the first `n` tags, separated by commas.
pub open spec fn list_text(items: Seq<TagModel>, n: nat) -> Seq<char>
    decreases items, n,
{
    if n == 0 || n > items.len() {
        Seq::empty()
    } else if n == 1 {
        tag_text(items[0])
    } else {
        list_text(items, (n - 1) as nat) + seq![','] + tag_text(items[n - 1])
    }
}

/// One named tag: `key:value`, or the bare value when the key is empty.
pub open spec fn entry_text(e: (Seq<char>, TagModel)) -> Seq<char>
    decreases e, 0nat,
{
    (if e.0.len() > 0 { e.0 + seq![':'] } else { Seq::empty() }) + tag_text(e.1)
}

/// The first `n` named tags, separated by commas.
pub open spec fn entries_text(e: Seq<(Seq<char>, TagModel)>, n: nat) -> Seq<char>
    decreases e, n,
{
    if n == 0 || n > e.len() {
        Seq::empty()
    } else if n == 1 {
        entry_text(e[0])
    } else {
        entries_text(e, (n - 1) as nat) + seq![','] + entry_text(e[n - 1])
    }
}

/// The textual form of a compound: `{`, its named tags separated by commas, `}`.
pub open spec fn compound_text(e: Seq<(Seq<char>, TagModel)>) -> Seq<char> {
    seq!['{'] + entries_text(e, e.len()) + seq!['}']
}

impl NbtTag {
    /// The textual form of this tag; see [tag_text].
    pub fn to_snbt(&self) -> (r: String)
        ensures
            r@ == tag_text(self@),
        decreases self,
    {
        let mut out = String::new();
        match self {
            NbtTag::Byte(n) => {
                push_int(&mut out, *n as i64);
                push_char(&mut out, 'b');
            },
            NbtTag::Short(n) => {
                push_int(&mut out, *n as i64);
                push_char(&mut out, 's');
            },
            NbtTag::Int(n) => {
                push_int(&mut out, *n as i64);
            },
            NbtTag::Long(n) => {
                push_int(&mut out, *n);
                push_char(&mut out, 'l');
            },
            NbtTag::ByteArray(items) => {
                push_str(&mut out, "[B;");
                let ghost start = out@;
                let mut i: usize = 0;
                while i < items.len()
                    invariant
                        i <= items@.len(),
                        out@ == start + bytes_text(items@, i as nat),
                    decreases items@.len() - i,
                {
                    if i > 0 {
                        push_char(&mut out, ',');
                    }
                    push_int(&mut out, items[i] as i64);
                    push_char(&mut out, 'b');
                    assert(out@ =~= start + bytes_text(items@, (i + 1) as nat));
                    i += 1;
                }
                push_char(&mut out, ']');
            },
            NbtTag::String(s) => {
                push_escaped(&mut out, s);
            },
            NbtTag::List(items) => {
                push_char(&mut out, '[');
                let ghost start = out@;
                let ghost tv = tags_view(*items);
                let mut i: usize = 0;
                while i < items.len()
                    invariant
                        i <= items@.len(),
                        self is List,
                        self->List_0 == *items,
                        tv == tags_view(*items),
                        out@ == start + list_text(tv, i as nat),
                    decreases items@.len() - i,
                {
                    if i > 0 {
                        push_char(&mut out, ',');
                    }
                    proof {
                        assert(decreases_to!(*self => self->List_0));
                        assert(decreases_to!(*items => items@[i as int]));
                    }
                    let item = items[i].to_snbt();
                    push_str(&mut out, item.as_str());
                    assert(tv[i as int] == tag_view(items@[i as int]));
                    assert(out@ =~= start + list_text(tv, (i + 1) as nat));
                    i += 1;
                }
                push_char(&mut out, ']');
            },
            NbtTag::Compound(c) => {
                proof {
                    assert(decreases_to!(*self => *c));
                }
                let text = c.to_snbt();
                push_str(&mut out, text.as_str());
            },
            NbtTag::IntArray(items) => {
                push_str(&mut out, "[I;");
                let ghost start = out@;
                let mut i: usize = 0;
                while i < items.len()
                    invariant
                        i <= items@.len(),
                        out@ == start + ints_text(items@, i as nat),
                    decreases items@.len() - i,
                {
                    if i > 0 {
                        push_char(&mut out, ',');
                    }
                    push_int(&mut out, items[i] as i64);
                    assert(out@ =~= start + ints_text(items@, (i + 1) as nat));
                    i += 1;
                }
                push_char(&mut out, ']');
            },
            NbtTag::LongArray(items) => {
                push_str(&mut out, "[L;");
                let ghost start = out@;
                let mut i: usize = 0;
                while i < items.len()
                    invariant
                        i <= items@.len(),
                        out@ == start + longs_text(items@, i as nat),
                    decreases items@.len() - i,
                {
                    if i > 0 {
                        push_char(&mut out, ',');
                    }
                    push_int(&mut out, items[i]);
                    push_char(&mut out, 'l');
                    assert(out@ =~= start + longs_text(items@, (i + 1) as nat));
                    i += 1;
                }
                push_char(&mut out, ']');
            },
        }
        assert(out@ =~= tag_text(self@));
        out
    }
}

impl NbtCompound {
    /// The textual form of this compound; see [compound_text].
    pub fn to_snbt(&self) -> (r: String)
        ensures
            r@ == compound_text(entries_view(self.entries)),
        decreases self,
    {
        let ghost e = entries_view(self.entries);
        let mut out = String::new();
        push_char(&mut out, '{');
        let ghost start = out@;
        let mut i: usize = 0;
        while i < self.entries.len()
            invariant
                i <= self.entries@.len(),
                e == entries_view(self.entries),
                out@ == start + entries_text(e, i as nat),
            decreases self.entries@.len() - i,
        {
            let ghost before = out@;
            if i > 0 {
                push_char(&mut out, ',');
            }
            let ghost mid = out@;
            let name = &self.entries[i].0;
            if name.as_str().unicode_len() > 0 {
                push_str(&mut out, name.as_str());
                push_char(&mut out, ':');
            }
            proof {
                assert(decreases_to!(*self => self.entries));
                assert(decreases_to!(self.entries => self.entries@[i as int]));
                assert(decreases_to!(self.entries@[i as int] => self.entries@[i as int].1));
            }
            let v = self.entries[i].1.to_snbt();
            push_str(&mut out, v.as_str());
            assert(e[i as int] == (self.entries@[i as int].0@, tag_view(self.entries@[i as int].1)));
            assert(out@ =~= mid + entry_text(e[i as int]));
            assert(out@ =~= start + entries_text(e, (i + 1) as nat));
            i += 1;
        }
        push_char(&mut out, '}');
        assert(out@ =~= compound_text(e));
        out
    }
}

/// One named tag when `v` is set, none otherwise.
pub open spec fn opt_entry(k: Seq<char>, v: Option<TagModel>) -> Seq<(Seq<char>, TagModel)> {
    match v {
        Some(t) => seq![(k, t)],
        None => Seq::empty(),
    }
}

/// An optional string as an optional string tag.
pub open spec fn opt_string(v: Option<Seq<char>>) -> Option<TagModel> {
    match v {
        Some(s) => Some(TagModel::String(s)),
        None => None,
    }
}

/// A flag as a byte tag, 1 or 0.
pub open spec fn flag_tag(v: Option<bool>) -> Option<TagModel> {
    match v {
        Some(b) => Some(TagModel::Byte(if b { 1i8 } else { 0i8 })),
        None => None,
    }
}

/// The lower-case hexadecimal digit of `d`.
pub open spec fn hex_char(d: int) -> char {
    if d < 10 { (d + 48) as u8 as char } else { (d + 87) as u8 as char }
}

/// A colour's name in the tag format: its snake-case name, or `#rrggbb` in lower case.
pub open spec fn color_text(c: Color) -> Seq<char> {
    match c {
        Color::Black => "black"@,
        Color::DarkBlue => "dark_blue"@,
        Color::DarkGreen => "dark_green"@,
        Color::DarkAqua => "dark_aqua"@,
        Color::DarkRed => "dark_red"@,
        Color::DarkPurple => "dark_purple"@,
        Color::Gold => "gold"@,
        Color::Gray => "gray"@,
        Color::DarkGray => "dark_gray"@,
        Color::Blue => "blue"@,
        Color::Green => "green"@,
        Color::Aqua => "aqua"@,
        Color::Red => "red"@,
        Color::LightPurple => "light_purple"@,
        Color::Yellow => "yellow"@,
        Color::White => "white"@,
        Color::Hex(r, g, b) => seq!['#', hex_char(r as int / 16), hex_char(r as int % 16), hex_char(g as int / 16),
            hex_char(g as int % 16), hex_char(b as int / 16), hex_char(b as int % 16)],
    }
}

/// The named tags of a format's set fields: `color`, `font`, `bold`, `italic`, `underlined`,
/// `strikethrough`, `obfuscated` and `shadow_color` (a long), in that order.
pub open spec fn format_tags(f: FormatModel) -> Seq<(Seq<char>, TagModel)> {
    opt_entry("color"@, match f.color { Some(c) => Some(TagModel::String(color_text(c))), None => None })
        + opt_entry("font"@, opt_string(f.font))
        + opt_entry("bold"@, flag_tag(f.bold))
        + opt_entry("italic"@, flag_tag(f.italic))
        + opt_entry("underlined"@, flag_tag(f.underline))
        + opt_entry("strikethrough"@, flag_tag(f.strikethrough))
        + opt_entry("obfuscated"@, flag_tag(f.obfuscated))
        + opt_entry("shadow_color"@, match f.shadow_color { Some(v) => Some(TagModel::Long(v as i64)), None => None })
}

/// The tag of a click event: its `action` name and the field it carries.
pub open spec fn click_tags(c: ClickModel) -> Seq<(Seq<char>, TagModel)> {
    match c {
        ClickModel::OpenUrl { url } => seq![("action"@, TagModel::String("open_url"@)), ("url"@, TagModel::String(url))],
        ClickModel::OpenFile { path } => seq![("action"@, TagModel::String("open_file"@)), ("path"@, TagModel::String(path))],
        ClickModel::RunCommand { command } => seq![("action"@, TagModel::String("run_command"@)), ("command"@, TagModel::String(command))],
        ClickModel::SuggestCommand { command } => seq![("action"@, TagModel::String("suggest_command"@)), ("command"@, TagModel::String(command))],
        ClickModel::ChangePage { page } => seq![("action"@, TagModel::String("change_page"@)), ("page"@, TagModel::Int(page as i32))],
        ClickModel::CopyToClipboard { value } => seq![("action"@, TagModel::String("copy_to_clipboard"@)), ("value"@, TagModel::String(value))],
        ClickModel::ShowDialog { dialog } => seq![("action"@, TagModel::String("show_dialog"@)), ("dialog"@, TagModel::String(dialog))],
        ClickModel::Custom { id, payload } => seq![("action"@, TagModel::String("custom"@)), ("id"@, TagModel::String(id))]
            + opt_entry("payload"@, opt_string(payload)),
    }
}

/// The named tags of a skin property.
pub open spec fn property_tags(p: PropertyModel) -> Seq<(Seq<char>, TagModel)> {
    seq![("name"@, TagModel::String(p.name)), ("value"@, TagModel::String(p.value))]
        + opt_entry("signature"@, opt_string(p.signature))
}

/// The named tags of a player reference.
pub open spec fn player_tags(p: PlayerModel) -> Seq<(Seq<char>, TagModel)> {
    opt_entry("id"@, match p.id { Some(id) => Some(TagModel::IntArray(id@)), None => None })
        + opt_entry("name"@, opt_string(p.name))
        + opt_entry("texture"@, opt_string(p.texture))
        + (if p.properties.len() > 0 {
            seq![("properties"@, TagModel::List(Seq::new(p.properties.len(), |i: int| TagModel::Compound(property_tags(p.properties[i])))))]
        } else {
            Seq::empty()
        })
}

/// The tag trees of a list of resolved components.
pub open spec fn encoded_all(s: Seq<ComponentModel>) -> Seq<TagModel>
    decreases s, 0nat,
{
    Seq::new(s.len(), |i: int| if 0 <= i < s.len() { encoded(s[i]) } else { arbitrary() })
}

/// The tag tree of a resolved component: the named tags of its content, format and
/// interactions, then its children under `extra` when it has any.
pub open spec fn encoded(c: ComponentModel) -> TagModel
    decreases c, 3nat,
{
    TagModel::Compound(
        content_tags(c.content) + format_tags(c.format) + interaction_tags(c.interactions) + (
        if c.children.len() > 0 {
            seq![("extra"@, TagModel::List(encoded_all(c.children)))]
        } else {
            Seq::empty()
        }),
    )
}

/// The named tags of a content: `text`; `atlas` and `sprite`; `object`, `player` and `hat`
/// (only when false); `keybind`; `translate`, `fallback` and `with`. Placeholders and custom
/// content, which a resolved tree does not hold, give none.
pub open spec fn content_tags(ct: ContentModel) -> Seq<(Seq<char>, TagModel)>
    decreases ct, 2nat,
{
    match ct {
        ContentModel::Text(t) => seq![("text"@, TagModel::String(t))],
        ContentModel::Object(ObjectModel::Atlas { atlas, sprite }) => opt_entry("atlas"@, opt_string(atlas))
            + seq![("sprite"@, TagModel::String(sprite))],
        ContentModel::Object(ObjectModel::Player { player, hat }) => seq![
            ("object"@, TagModel::String("player"@)),
            ("player"@, TagModel::Compound(player_tags(player))),
        ] + (if !hat { seq![("hat"@, TagModel::Byte(0))] } else { Seq::empty() }),
        ContentModel::Keybind(k) => seq![("keybind"@, TagModel::String(k))],
        ContentModel::Translate(m) => seq![("translate"@, TagModel::String(m.key))] + opt_entry("fallback"@, opt_string(m.fallback))
            + match m.args {
            Some(a) => seq![("with"@, TagModel::List(encoded_all(a)))],
            None => Seq::empty(),
        },
        _ => Seq::empty(),
    }
}

/// The named tags of an overlay: `insertion`, `hover_event`, `click_event`.
pub open spec fn interaction_tags(i: InteractivityModel) -> Seq<(Seq<char>, TagModel)>
    decreases i, 2nat,
{
    opt_entry("insertion"@, opt_string(i.insertion)) + match i.hover {
        Some(h) => seq![("hover_event"@, hover_encoded(h))],
        None => Seq::empty(),
    } + opt_entry("click_event"@, match i.click { Some(c) => Some(TagModel::Compound(click_tags(c))), None => None })
}

/// The tag of a hover event: its `action` name and the fields it carries.
pub open spec fn hover_encoded(h: HoverModel) -> TagModel
    decreases h, 1nat,
{
    TagModel::Compound(match h {
        HoverModel::ShowText { value } => seq![("action"@, TagModel::String("show_text"@)), ("value"@, encoded(*value))],
        HoverModel::ShowItem { id, count, components } => seq![("action"@, TagModel::String("show_item"@)), ("id"@, TagModel::String(id))]
            + opt_entry("count"@, match count { Some(n) => Some(TagModel::Int(n)), None => None })
            + opt_entry("components"@, opt_string(components)),
        HoverModel::ShowEntity { name, id, uuid } => seq![
            ("action"@, TagModel::String("show_entity"@)),
            ("id"@, TagModel::String(id)),
            ("uuid"@, TagModel::List(seq![TagModel::Int(uuid@[0]), TagModel::Int(uuid@[1]), TagModel::Int(uuid@[2]), TagModel::Int(uuid@[3])])),
        ] + opt_entry("name"@, opt_string(name)),
    })
}

/// Named tags under construction.
struct Entries {
    v: Vec<(String, NbtTag)>,
}

impl Entries {
    fn new() -> (r: Entries)
        ensures
            entries_view(r.v) == Seq::<(Seq<char>, TagModel)>::empty(),
    {
        let r = Entries { v: Vec::new() };
        assert(entries_view(r.v) =~= Seq::<(Seq<char>, TagModel)>::empty());
        r
    }

    fn add(&mut self, name: &str, tag: NbtTag)
        ensures
            entries_view(final(self).v) == entries_view(old(self).v) + seq![(name@, tag_view(tag))],
    {
        let ghost before = entries_view(self.v);
        let ghost tv = tag_view(tag);
        self.v.push((owned(name), tag));
        assert(entries_view(self.v) =~= before + seq![(name@, tv)]);
    }

    fn add_opt(&mut self, name: &str, tag: Option<NbtTag>)
        ensures
            entries_view(final(self).v) == entries_view(old(self).v) + opt_entry(name@, match tag { Some(t) => Some(tag_view(t)), None => None }),
    {
        match tag {
            Some(t) => self.add(name, t),
            None => {
                assert(entries_view(self.v) + Seq::<(Seq<char>, TagModel)>::empty() =~= entries_view(self.v));
            },
        }
    }

    fn join(&mut self, other: Entries)
        ensures
            entries_view(final(self).v) == entries_view(old(self).v) + entries_view(other.v),
    {
        let ghost a = entries_view(self.v);
        let ghost b = entries_view(other.v);
        let mut o = other.v;
        self.v.append(&mut o);
        assert(entries_view(self.v) =~= a + b);
    }

    fn into_tag(self) -> (r: NbtTag)
        ensures
            tag_view(r) == TagModel::Compound(entries_view(self.v)),
    {
        NbtTag::Compound(NbtCompound { entries: self.v })
    }
}

fn string_tag(s: &String) -> (r: NbtTag)
    ensures
        tag_view(r) == TagModel::String(s@),
{
    NbtTag::String(copy_string(s))
}

fn opt_string_tag(s: &Option<String>) -> (r: Option<NbtTag>)
    ensures
        (match r { Some(t) => Some(tag_view(t)), None => None }) == opt_string(crate::text::opt_view(*s)),
{
    match s {
        Some(s) => Some(string_tag(s)),
        None => None,
    }
}

fn flag(v: Option<bool>) -> (r: Option<NbtTag>)
    ensures
        (match r { Some(t) => Some(tag_view(t)), None => None }) == flag_tag(v),
{
    match v {
        Some(b) => Some(NbtTag::Byte(if b { 1 } else { 0 })),
        None => None,
    }
}

fn hex_digit_char(d: u8) -> (c: char)
    requires
        d < 16,
    ensures
        c == hex_char(d as int),
{
    if d < 10 { (d + 48) as char } else { (d + 87) as char }
}

/// The name of a colour in the tag format.
pub fn color_name(c: &Color) -> (r: String)
    ensures
        r@ == color_text(*c),
{
    match c {
        Color::Black => owned("black"),
        Color::DarkBlue => owned("dark_blue"),
        Color::DarkGreen => owned("dark_green"),
        Color::DarkAqua => owned("dark_aqua"),
        Color::DarkRed => owned("dark_red"),
        Color::DarkPurple => owned("dark_purple"),
        Color::Gold => owned("gold"),
        Color::Gray => owned("gray"),
        Color::DarkGray => owned("dark_gray"),
        Color::Blue => owned("blue"),
        Color::Green => owned("green"),
        Color::Aqua => owned("aqua"),
        Color::Red => owned("red"),
        Color::LightPurple => owned("light_purple"),
        Color::Yellow => owned("yellow"),
        Color::White => owned("white"),
        Color::Hex(r, g, b) => {
            let mut s = String::new();
            push_char(&mut s, '#');
            push_char(&mut s, hex_digit_char(*r / 16));
            push_char(&mut s, hex_digit_char(*r % 16));
            push_char(&mut s, hex_digit_char(*g / 16));
            push_char(&mut s, hex_digit_char(*g % 16));
            push_char(&mut s, hex_digit_char(*b / 16));
            push_char(&mut s, hex_digit_char(*b % 16));
            assert(s@ =~= color_text(*c));
            s
        },
    }
}

/// The named tags of a format's set fields.
pub fn format_entries(format: &Format) -> (r: Vec<(String, NbtTag)>)
    ensures
        entries_view(r) == format_tags(format@),
{
    let mut e = Entries::new();
    e.add_opt("color", match &format.color { Some(c) => Some(NbtTag::String(color_name(c))), None => None });
    e.add_opt("font", opt_string_tag(&format.font));
    e.add_opt("bold", flag(format.bold));
    e.add_opt("italic", flag(format.italic));
    e.add_opt("underlined", flag(format.underline));
    e.add_opt("strikethrough", flag(format.strikethrough));
    e.add_opt("obfuscated", flag(format.obfuscated));
    e.add_opt("shadow_color", match format.shadow_color { Some(v) => Some(NbtTag::Long(v as i64)), None => None });
    assert(entries_view(e.v) =~= format_tags(format@));
    e.v
}

/// The tag of a click event.
pub fn click_tag(click: &ClickEvent) -> (r: NbtTag)
    ensures
        tag_view(r) == TagModel::Compound(click_tags(click@)),
{
    let mut e = Entries::new();
    match click {
        ClickEvent::OpenUrl { url } => {
            e.add("action", NbtTag::String(owned("open_url")));
            e.add("url", string_tag(url));
        },
        ClickEvent::OpenFile { path } => {
            e.add("action", NbtTag::String(owned("open_file")));
            e.add("path", string_tag(path));
        },
        ClickEvent::RunCommand { command } => {
            e.add("action", NbtTag::String(owned("run_command")));
            e.add("command", string_tag(command));
        },
        ClickEvent::SuggestCommand { command } => {
            e.add("action", NbtTag::String(owned("suggest_command")));
            e.add("command", string_tag(command));
        },
        ClickEvent::ChangePage { page } => {
            e.add("action", NbtTag::String(owned("change_page")));
            e.add("page", NbtTag::Int(#[verifier::truncate] (*page as i32)));
        },
        ClickEvent::CopyToClipboard { value } => {
            e.add("action", NbtTag::String(owned("copy_to_clipboard")));
            e.add("value", string_tag(value));
        },
        ClickEvent::ShowDialog { dialog } => {
            e.add("action", NbtTag::String(owned("show_dialog")));
            e.add("dialog", string_tag(dialog));
        },
        ClickEvent::Custom { id, payload } => {
            e.add("action", NbtTag::String(owned("custom")));
            e.add("id", string_tag(id));
            e.add_opt("payload", opt_string_tag(payload));
        },
    }
    assert(entries_view(e.v) =~= click_tags(click@));
    e.into_tag()
}

fn property_tag(p: &crate::content::PlayerProperties) -> (r: NbtTag)
    ensures
        tag_view(r) == TagModel::Compound(property_tags(p@)),
{
    let mut e = Entries::new();
    e.add("name", string_tag(&p.name));
    e.add("value", string_tag(&p.value));
    e.add_opt("signature", opt_string_tag(&p.signature));
    assert(entries_view(e.v) =~= property_tags(p@));
    e.into_tag()
}

fn player_entries(player: &crate::content::ObjectPlayer) -> (r: Vec<(String, NbtTag)>)
    ensures
        entries_view(r) == player_tags(player@),
{
    let mut e = Entries::new();
    let id_tag = match &player.id {
        Some(id) => {
            let mut ids: Vec<i32> = Vec::new();
            ids.push(id[0]);
            ids.push(id[1]);
            ids.push(id[2]);
            ids.push(id[3]);
            assert(ids@ =~= id@);
            Some(NbtTag::IntArray(ids))
        },
        None => None,
    };
    e.add_opt("id", id_tag);
    e.add_opt("name", opt_string_tag(&player.name));
    e.add_opt("texture", opt_string_tag(&player.texture));
    let ghost before = entries_view(e.v);
    if player.properties.len() > 0 {
        let mut props: Vec<NbtTag> = Vec::new();
        let mut i: usize = 0;
        while i < player.properties.len()
            invariant
                i <= player.properties@.len(),
                props@.len() == i,
                forall|j: int| 0 <= j < i ==> tag_view(#[trigger] props@[j]) == TagModel::Compound(property_tags(player.properties@[j]@)),
            decreases player.properties@.len() - i,
        {
            props.push(property_tag(&player.properties[i]));
            i += 1;
        }
        let ghost pv = tags_view(props);
        assert(pv =~= Seq::new(player@.properties.len(), |i: int| TagModel::Compound(property_tags(player@.properties[i]))));
        e.add("properties", NbtTag::List(props));
    } else {
        assert(entries_view(e.v) + Seq::<(Seq<char>, TagModel)>::empty() =~= entries_view(e.v));
    }
    assert(entries_view(e.v) =~= player_tags(player@));
    e.v
}

/// Encodes resolved components as tag trees.
pub struct NbtBuilder;

impl NbtBuilder {
    /// The tag of a hover event; shown text is encoded in turn.
    pub fn hover_tag<R: TextResolutor>(&self, resolutor: &R, hover: &HoverEvent) -> (r: NbtTag)
        ensures
            tag_view(r) == hover_encoded(hover@),
        decreases hover, 1nat,
    {
        let mut e = Entries::new();
        match hover {
            HoverEvent::ShowText { value } => {
                e.add("action", NbtTag::String(owned("show_text")));
                proof {
                    assert(decreases_to!(*hover => **value));
                }
                e.add("value", self.encode_resolved(resolutor, value));
                assert(entries_view(e.v) =~= seq![("action"@, TagModel::String("show_text"@)), ("value"@, encoded(value@))]);
            },
            HoverEvent::ShowItem { id, count, components } => {
                e.add("action", NbtTag::String(owned("show_item")));
                e.add("id", string_tag(id));
                e.add_opt("count", match count { Some(n) => Some(NbtTag::Int(*n)), None => None });
                e.add_opt("components", opt_string_tag(components));
                assert(entries_view(e.v) =~= seq![("action"@, TagModel::String("show_item"@)), ("id"@, TagModel::String(id@))]
                    + opt_entry("count"@, match *count { Some(n) => Some(TagModel::Int(n)), None => None })
                    + opt_entry("components"@, opt_string(crate::text::opt_view(*components))));
            },
            HoverEvent::ShowEntity { name, id, uuid } => {
                e.add("action", NbtTag::String(owned("show_entity")));
                e.add("id", string_tag(id));
                let mut u: Vec<NbtTag> = Vec::new();
                u.push(NbtTag::Int(uuid[0]));
                u.push(NbtTag::Int(uuid[1]));
                u.push(NbtTag::Int(uuid[2]));
                u.push(NbtTag::Int(uuid[3]));
                assert(tags_view(u) =~= seq![TagModel::Int(uuid@[0]), TagModel::Int(uuid@[1]), TagModel::Int(uuid@[2]), TagModel::Int(uuid@[3])]);
                e.add("uuid", NbtTag::List(u));
                e.add_opt("name", opt_string_tag(name));
                assert(entries_view(e.v) =~= seq![
                    ("action"@, TagModel::String("show_entity"@)),
                    ("id"@, TagModel::String(id@)),
                    ("uuid"@, TagModel::List(seq![TagModel::Int(uuid@[0]), TagModel::Int(uuid@[1]), TagModel::Int(uuid@[2]), TagModel::Int(uuid@[3])])),
                ] + opt_entry("name"@, opt_string(crate::text::opt_view(*name))));
            },
        }
        e.into_tag()
    }

    fn encode_list<R: TextResolutor>(&self, resolutor: &R, v: &Vec<TextComponent>) -> (r: NbtTag)
        ensures
            tag_view(r) == TagModel::List(encoded_all(components_view(*v))),
        decreases v, 0nat,
    {
        let mut tags: Vec<NbtTag> = Vec::new();
        let mut i: usize = 0;
        while i < v.len()
            invariant
                i <= v@.len(),
                tags@.len() == i,
                forall|j: int| 0 <= j < i ==> tag_view(#[trigger] tags@[j]) == encoded(v@[j]@),
            decreases v@.len() - i,
        {
            proof {
                assert(decreases_to!(*v => v@[i as int]));
            }
            tags.push(self.encode_resolved(resolutor, &v[i]));
            i += 1;
        }
        assert(tags_view(tags) =~= encoded_all(components_view(*v)));
        NbtTag::List(tags)
    }

    fn content_entries<R: TextResolutor>(&self, resolutor: &R, content: &Content) -> (r: Vec<(String, NbtTag)>)
        ensures
            entries_view(r) == content_tags(content@),
        decreases content, 2nat,
    {
        let mut e = Entries::new();
        match content {
            Content::Text(t) => e.add("text", string_tag(t)),
            Content::Object(Object::Atlas { atlas, sprite }) => {
                e.add_opt("atlas", opt_string_tag(atlas));
                e.add("sprite", string_tag(sprite));
            },
            Content::Object(Object::Player { player, hat }) => {
                e.add("object", NbtTag::String(owned("player")));
                let inner = player_entries(player);
                e.add("player", NbtTag::Compound(NbtCompound { entries: inner }));
                if !*hat {
                    e.add("hat", NbtTag::Byte(0));
                }
            },
            Content::Keybind(k) => e.add("keybind", string_tag(k)),
            Content::Translate(msg) => {
                e.add("translate", string_tag(&msg.key));
                e.add_opt("fallback", opt_string_tag(&msg.fallback));
                let ghost m = crate::translation::message_view(*msg);
                assert(content@ == ContentModel::Translate(m));
                if let Some(args) = &msg.args {
                    proof {
                        assert(decreases_to!(*content => *msg));
                        assert(decreases_to!(*msg => msg.args));
                        assert(decreases_to!(msg.args => *args));
                    }
                    assert(m.args == Some(components_view(*args)));
                    e.add("with", self.encode_list(resolutor, args));
                } else {
                    assert(m.args is None);
                }
                assert(entries_view(e.v) =~= content_tags(content@));
            },
            _ => {},
        }
        assert(entries_view(e.v) =~= content_tags(content@));
        e.v
    }

    fn interaction_entries<R: TextResolutor>(&self, resolutor: &R, i: &Interactivity) -> (r: Vec<(String, NbtTag)>)
        ensures
            entries_view(r) == interaction_tags(i@),
        decreases i, 2nat,
    {
        let mut e = Entries::new();
        e.add_opt("insertion", opt_string_tag(&i.insertion));
        let ghost mid = entries_view(e.v);
        if let Some(h) = &i.hover {
            proof {
                assert(decreases_to!(*i => i.hover));
                assert(decreases_to!(i.hover => *h));
            }
            e.add("hover_event", self.hover_tag(resolutor, h));
        } else {
            assert(mid + Seq::<(Seq<char>, TagModel)>::empty() =~= mid);
        }
        e.add_opt("click_event", match &i.click { Some(c) => Some(click_tag(c)), None => None });
        assert(entries_view(e.v) =~= interaction_tags(i@));
        e.v
    }

    /// The tag tree of a resolved component.
    pub fn encode_resolved<R: TextResolutor>(&self, resolutor: &R, component: &TextComponent) -> (r: NbtTag)
        ensures
            tag_view(r) == encoded(component@),
        decreases component, 3nat,
    {
        let mut e = Entries::new();
        proof {
            assert(decreases_to!(*component => component.content));
            assert(decreases_to!(*component => component.interactions));
        }
        e.join(Entries { v: self.content_entries(resolutor, &component.content) });
        e.join(Entries { v: format_entries(&component.format) });
        e.join(Entries { v: self.interaction_entries(resolutor, &component.interactions) });
        let ghost mid = entries_view(e.v);
        if component.children.len() > 0 {
            proof {
                assert(decreases_to!(*component => component.children));
            }
            e.add("extra", self.encode_list(resolutor, &component.children));
        } else {
            assert(mid + Seq::<(Seq<char>, TagModel)>::empty() =~= mid);
        }
        assert(entries_view(e.v) =~= (content_tags(component@.content) + format_tags(component@.format)
            + interaction_tags(component@.interactions) + (if component@.children.len() > 0 {
            seq![("extra"@, TagModel::List(encoded_all(component@.children)))]
        } else {
            Seq::empty()
        })));
        e.into_tag()
    }
}

impl BuildTarget for NbtBuilder {
    type Result = NbtTag;

    fn build_component<R: TextResolutor>(&self, resolutor: &R, component: &TextComponent) -> (r: NbtTag)
        ensures
            tag_view(r) == encoded(component@),
    {
        self.encode_resolved(resolutor, component)
    }
}

impl TextComponent {
    /// This component resolved and encoded as a tag tree.
    pub fn to_nbt<R: TextResolutor>(&self, resolutor: &R) -> (r: NbtTag)
        ensures
            tag_view(r) == encoded(crate::resolving::resolve_model(*resolutor, self@)),
    {
        let resolved = self.resolve(resolutor);
        NbtBuilder.encode_resolved(resolutor, &resolved)
    }
}

} // verus!
