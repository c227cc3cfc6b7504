//! Builders that render resolved components as text.
use vstd::prelude::*;
use crate::content::{Content, ContentModel, Object, ObjectModel};
use crate::resolving::{BuildTarget, TextResolutor, split_template};
use crate::text::{copy_string, int_decimal, owned, push_int, push_str};
use crate::{ComponentModel, TextComponent, components_view};

verus! {

/// How a player head is labelled: `[i0, i1, i2, i3]` for an id.
pub open spec fn id_text(id: [i32; 4]) -> Seq<char> {
    "["@ + int_decimal(id@[0] as int) + ", "@ + int_decimal(id@[1] as int) + ", "@ + int_decimal(id@[2] as int)
        + ", "@ + int_decimal(id@[3] as int) + "]"@
}

/// The plain text of a component: its own text, then that of each child in order.
pub open spec fn plain_text<R: TextResolutor>(res: R, c: ComponentModel) -> Seq<char>
    decreases c, 2nat,
{
    own_text(res, c) + plain_all(res, c.children, c.children.len())
}

/// The plain text of the first `n` components of `s`, joined.
pub open spec fn plain_all<R: TextResolutor>(res: R, s: Seq<ComponentModel>, n: nat) -> Seq<char>
    decreases s, n,
{
    if n == 0 || n > s.len() {
        Seq::empty()
    } else {
        plain_all(res, s, (n - 1) as nat) + plain_text(res, s[n - 1])
    }
}

/// The text of the first `n` template segments: each literal, then the plain text of the
/// argument it names, when that argument exists.
pub open spec fn parts_text<R: TextResolutor>(
    res: R,
    parts: Seq<(Seq<char>, nat)>,
    args: Option<Seq<ComponentModel>>,
    n: nat,
) -> Seq<char>
    decreases args, n,
{
    if n == 0 || n > parts.len() {
        Seq::empty()
    } else {
        let k = parts[n - 1].1;
        parts_text(res, parts, args, (n - 1) as nat) + parts[n - 1].0 + (
        if k != 0 && args is Some && k <= args->0.len() {
            plain_text(res, args->0[k - 1])
        } else {
            Seq::empty()
        })
    }
}

/// The text a component shows for its own content, without its children.
pub open spec fn own_text<R: TextResolutor>(res: R, c: ComponentModel) -> Seq<char>
    decreases c, 1nat,
{
    match c.content {
        ContentModel::Text(t) => t,
        ContentModel::Translate(m) => match res.translation(m.key) {
            Some(tpl) => {
                let parts = split_template(tpl);
                parts_text(res, parts, m.args, parts.len())
            },
            None => match m.fallback {
                Some(f) => f,
                None => "[Translation: "@ + m.key + "]"@,
            },
        },
        ContentModel::Keybind(k) => "[Keybind: "@ + k + "]"@,
        ContentModel::Object(ObjectModel::Atlas { sprite, .. }) => "[Object: "@ + sprite + "]"@,
        ContentModel::Object(ObjectModel::Player { player, .. }) => match player.name {
            Some(name) => "[Head: "@ + name + "]"@,
            None => match player.id {
                Some(id) => "[Head: "@ + id_text(id) + "]"@,
                None => "[Head]"@,
            },
        },
        ContentModel::Resolvable(_) => "[Resolvable]"@,
        ContentModel::Custom(_) => "[Custom]"@,
    }
}

/// Renders components as plain text.
pub struct TextBuilder;

impl TextBuilder {
    /// The text of a component's own content, without its children.
    pub fn stringify_content<R: TextResolutor>(&self, resolutor: &R, component: &TextComponent) -> (r: String)
        ensures
            r@ == own_text(*resolutor, component@),
        decreases component, 1nat,
    {
        match &component.content {
            Content::Text(t) => copy_string(t),
            Content::Translate(message) => {
                match resolutor.translate(message.key.as_str()) {
                    Some(template) => {
                        let parts = resolutor.split_translation(template);
                        let ghost pv = crate::resolving::segments_view(parts);
                        let ghost m = crate::translation::message_view(*message);
                        let mut s = String::new();
                        let mut i: usize = 0;
                        while i < parts.len()
                            invariant
                                i <= parts@.len(),
                                pv == crate::resolving::segments_view(parts),
                                m == crate::translation::message_view(*message),
                                component@.content == ContentModel::Translate(m),
                                component.content is Translate,
                                component.content->Translate_0 == *message,
                                s@ == parts_text(*resolutor, pv, m.args, i as nat),
                            decreases parts@.len() - i,
                        {
                            let pos = parts[i].1;
                            push_str(&mut s, parts[i].0.as_str());
                            match &message.args {
                                Some(args) => {
                                    if pos != 0 && pos <= args.len() {
                                        proof {
                                            assert(decreases_to!(*component => component.content));
                                            assert(component.content->Translate_0 == *message);
                                            assert(decreases_to!(component.content => component.content->Translate_0));
                                            assert(decreases_to!(*message => message.args));
                                            assert(decreases_to!(message.args => *args));
                                            assert(decreases_to!(*args => args@[pos - 1]));
                                        }
                                        let t = self.build_text(resolutor, &args[pos - 1]);
                                        push_str(&mut s, t.as_str());
                                    }
                                },
                                None => {},
                            }
                            i += 1;
                        }
                        s
                    },
                    None => match &message.fallback {
                        Some(f) => copy_string(f),
                        None => {
                            let mut s = owned("[Translation: ");
                            push_str(&mut s, message.key.as_str());
                            push_str(&mut s, "]");
                            s
                        },
                    },
                }
            },
            Content::Keybind(k) => {
                let mut s = owned("[Keybind: ");
                push_str(&mut s, k.as_str());
                push_str(&mut s, "]");
                s
            },
            Content::Object(Object::Atlas { sprite, .. }) => {
                let mut s = owned("[Object: ");
                push_str(&mut s, sprite.as_str());
                push_str(&mut s, "]");
                s
            },
            Content::Object(Object::Player { player, .. }) => {
                match &player.name {
                    Some(name) => {
                        let mut s = owned("[Head: ");
                        push_str(&mut s, name.as_str());
                        push_str(&mut s, "]");
                        s
                    },
                    None => match &player.id {
                        Some(id) => {
                            let mut s = owned("[Head: ");
                            push_str(&mut s, "[");
                            push_int(&mut s, id[0] as i64);
                            push_str(&mut s, ", ");
                            push_int(&mut s, id[1] as i64);
                            push_str(&mut s, ", ");
                            push_int(&mut s, id[2] as i64);
                            push_str(&mut s, ", ");
                            push_int(&mut s, id[3] as i64);
                            push_str(&mut s, "]");
                            push_str(&mut s, "]");
                            assert(s@ =~= "[Head: "@ + id_text(*id) + "]"@);
                            s
                        },
                        None => owned("[Head]"),
                    },
                }
            },
            Content::Resolvable(_) => owned("[Resolvable]"),
            Content::Custom(_) => owned("[Custom]"),
        }
    }

    /// The plain text of a component: its own text, then that of each child in order.
    pub fn build_text<R: TextResolutor>(&self, resolutor: &R, component: &TextComponent) -> (r: String)
        ensures
            r@ == plain_text(*resolutor, component@),
        decreases component, 2nat,
    {
        let mut s = self.stringify_content(resolutor, component);
        let ghost kids = component@.children;
        let mut i: usize = 0;
        while i < component.children.len()
            invariant
                i <= component.children@.len(),
                kids == component@.children,
                kids == components_view(component.children),
                s@ == own_text(*resolutor, component@) + plain_all(*resolutor, kids, i as nat),
            decreases component.children@.len() - i,
        {
            proof {
                assert(decreases_to!(*component => component.children@[i as int]));
            }
            let t = self.build_text(resolutor, &component.children[i]);
            push_str(&mut s, t.as_str());
            assert(s@ =~= own_text(*resolutor, component@) + plain_all(*resolutor, kids, (i + 1) as nat));
            i += 1;
        }
        s
    }
}

impl BuildTarget for TextBuilder {
    type Result = String;

    fn build_component<R: TextResolutor>(&self, resolutor: &R, component: &TextComponent) -> (r: String)
        ensures
            r@ == plain_text(*resolutor, component@),
    {
        self.build_text(resolutor, component)
    }
}

impl TextComponent {
    /// The plain text of this component once resolved.
    pub fn to_plain<R: TextResolutor>(&self, resolutor: &R) -> (r: String)
        ensures
            r@ == plain_text(*resolutor, crate::resolving::resolve_model(*resolutor, self@)),
    {
        let resolved = self.resolve(resolutor);
        TextBuilder.build_text(resolutor, &resolved)
    }
}

} // verus!

verus! {

proof fn lemma_plain_same<R: TextResolutor, S: TextResolutor>(r: R, s: S, c: ComponentModel)
    requires
        forall|k: Seq<char>| #[trigger] r.translation(k) == s.translation(k),
    ensures
        plain_text(r, c) == plain_text(s, c),
        own_text(r, c) == own_text(s, c),
    decreases c, 2nat,
{
    lemma_plain_all_same(r, s, c.children, c.children.len());
    if let ContentModel::Translate(m) = c.content {
        if let Some(tpl) = r.translation(m.key) {
            let parts = split_template(tpl);
            lemma_parts_same(r, s, parts, m.args, parts.len());
        }
    }
}

proof fn lemma_parts_same<R: TextResolutor, S: TextResolutor>(
    r: R,
    s: S,
    parts: Seq<(Seq<char>, nat)>,
    args: Option<Seq<ComponentModel>>,
    n: nat,
)
    requires
        forall|k: Seq<char>| #[trigger] r.translation(k) == s.translation(k),
    ensures
        parts_text(r, parts, args, n) == parts_text(s, parts, args, n),
    decreases args, n,
{
    if n > 0 && n <= parts.len() {
        lemma_parts_same(r, s, parts, args, (n - 1) as nat);
        let k = parts[n - 1].1;
        if k != 0 && args is Some && k <= args->0.len() {
            lemma_plain_same(r, s, args->0[k - 1]);
        }
    }
}

proof fn lemma_plain_all_same<R: TextResolutor, S: TextResolutor>(r: R, s: S, kids: Seq<ComponentModel>, n: nat)
    requires
        forall|k: Seq<char>| #[trigger] r.translation(k) == s.translation(k),
    ensures
        plain_all(r, kids, n) == plain_all(s, kids, n),
    decreases kids, n,
{
    if n > 0 && n <= kids.len() {
        lemma_plain_all_same(r, s, kids, (n - 1) as nat);
        lemma_plain_same(r, s, kids[n - 1]);
    }
}

/// Building a tree that holds no placeholder and no custom content never depends on what the
/// resolver would answer for them: resolving it changes nothing, and two resolvers with the
/// same translations give it the same plain text.
pub proof fn lemma_resolved_build_ignores_placeholder_answers<R: TextResolutor, S: TextResolutor>(
    r: R,
    s: S,
    c: ComponentModel,
)
    requires
        crate::resolving::is_resolved(c),
        forall|k: Seq<char>| #[trigger] r.translation(k) == s.translation(k),
    ensures
        crate::resolving::resolve_model(r, c) == c,
        crate::resolving::resolve_model(s, c) == c,
        plain_text(r, crate::resolving::resolve_model(r, c)) == plain_text(s, crate::resolving::resolve_model(s, c)),
{
    crate::resolving::lemma_resolved_tree_unchanged(r, c);
    crate::resolving::lemma_resolved_tree_unchanged(s, c);
    lemma_plain_same(r, s, c);
}

} // verus!
