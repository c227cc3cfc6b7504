//! Resolution of placeholders and the plain-text builder.
use vstd::prelude::*;
use crate::content::{Content, ContentModel, Resolvable, ResolvableModel};
use crate::custom::{CustomData, CustomModel};
use crate::format::mix_format;
use crate::interactivity::{HoverEvent, HoverModel, Interactivity, InteractivityModel, mix_interactions};
use crate::text::{copy_opt_string, copy_string, opt_view, owned, push_char, push_str};
use crate::translation::{MessageModel, TranslatedMessage};
use crate::{ComponentModel, TextComponent, components_view, content_only};

verus! {

/// A host capability that answers translation and placeholder queries.
pub trait TextResolutor {
    /// The component that stands for a placeholder.
    closed spec fn resolution(&self, r: ResolvableModel) -> ComponentModel {
        arbitrary()
    }

    /// The component that stands for custom content, if the registry knows it.
    closed spec fn custom_resolution(&self, d: CustomModel) -> Option<ComponentModel> {
        arbitrary()
    }

    /// The template of a translation key, if there is one.
    closed spec fn translation(&self, key: Seq<char>) -> Option<Seq<char>> {
        arbitrary()
    }

    /// Turns a placeholder into a component.
    fn resolve_content(&self, resolvable: &Resolvable) -> (r: TextComponent)
        ensures
            r@ == self.resolution(resolvable@),
    ;

    /// Turns custom content into a component, if the registry knows it.
    fn resolve_custom(&self, data: &CustomData) -> (r: Option<TextComponent>)
        ensures
            match r {
                Some(c) => self.custom_resolution(data@) == Some(c@),
                None => self.custom_resolution(data@) is None,
            },
    ;

    /// The template of a translation key, if there is one.
    fn translate(&self, key: &str) -> (r: Option<String>)
        ensures
            opt_view(r) == self.translation(key@),
    ;

    /// Splits a template into literal segments, each with the argument that follows it.
    fn split_translation(&self, text: String) -> (r: Vec<(String, usize)>)
        ensures
            segments_view(r) == split_template(text@),
    {
        let cs = crate::text::chars_of(text.as_str());
        split_chars(&cs)
    }
}

/// The model of a list of template segments.
pub open spec fn segments_view(v: Vec<(String, usize)>) -> Seq<(Seq<char>, nat)> {
    Seq::new(v@.len(), |i: int| (v@[i].0@, v@[i].1 as nat))
}

/// Whether a sequential marker `%s` starts at `p`.
pub open spec fn sequential_at(t: Seq<char>, p: int) -> bool {
    0 <= p && p + 2 <= t.len() && t[p] == '%' && t[p + 1] == 's'
}

/// The index `n` of a positional marker `%n$s` (`n` from 1 to 8) that starts at `p`, or 0.
pub open spec fn positional_at(t: Seq<char>, p: int) -> nat {
    if 0 <= p && p + 4 <= t.len() && t[p] == '%' && '1' <= t[p + 1] <= '8' && t[p + 2] == '$' && t[p + 3] == 's' {
        (t[p + 1] as int - '0' as int) as nat
    } else {
        0
    }
}

/// The segments of `t` from position `p` on, where the current literal began at `seg` and the
/// next sequential marker takes index `counter`.
pub open spec fn split_from(t: Seq<char>, p: int, seg: int, counter: nat) -> Seq<(Seq<char>, nat)>
    decreases t.len() - p,
{
    if p >= t.len() {
        seq![(t.subrange(seg, t.len() as int), 0nat)]
    } else if sequential_at(t, p) {
        seq![(t.subrange(seg, p), counter)] + split_from(t, p + 2, p + 2, counter + 1)
    } else if positional_at(t, p) != 0 {
        seq![(t.subrange(seg, p), positional_at(t, p))] + split_from(t, p + 4, p + 4, counter)
    } else {
        split_from(t, p + 1, seg, counter)
    }
}

/// A template cut at its markers: the literal before each marker with the marker's argument
/// index (sequential markers count up from 1, positional ones give their own), then the
/// trailing literal with index 0.
pub open spec fn split_template(t: Seq<char>) -> Seq<(Seq<char>, nat)> {
    split_from(t, 0, 0, 1)
}

/// A string holding `t[from..to]`.
pub fn string_of_range(t: &Vec<char>, from: usize, to: usize) -> (r: String)
    requires
        from <= to <= t@.len(),
    ensures
        r@ == t@.subrange(from as int, to as int),
{
    let mut s = String::new();
    let mut i = from;
    while i < to
        invariant
            from <= i <= to <= t@.len(),
            s@ == t@.subrange(from as int, i as int),
        decreases to - i,
    {
        push_char(&mut s, t[i]);
        assert(s@ =~= t@.subrange(from as int, i + 1));
        i += 1;
    }
    s
}

/// Splits a template, given as characters, at its markers.
pub fn split_chars(t: &Vec<char>) -> (r: Vec<(String, usize)>)
    ensures
        segments_view(r) == split_template(t@),
{
    let n = t.len();
    let mut out: Vec<(String, usize)> = Vec::new();
    let mut p: usize = 0;
    let mut seg: usize = 0;
    let mut counter: usize = 1;
    while p < n
        invariant
            n == t@.len(),
            0 <= seg <= p <= n,
            1 <= counter <= p + 1,
            segments_view(out) + split_from(t@, p as int, seg as int, counter as nat) == split_template(t@),
        decreases n - p,
    {
        let ghost before = segments_view(out);
        if n - p > 1 && t[p] == '%' && t[p + 1] == 's' {
            let lit = string_of_range(t, seg, p);
            out.push((lit, counter));
            proof {
                assert(segments_view(out) =~= before + seq![(t@.subrange(seg as int, p as int), counter as nat)]);
            }
            p = p + 2;
            seg = p;
            counter = counter + 1;
        } else if n - p > 3 && t[p] == '%' && '1' <= t[p + 1] && t[p + 1] <= '8' && t[p + 2] == '$' && t[p + 3] == 's' {
            let k = (t[p + 1] as u32 - '0' as u32) as usize;
            let lit = string_of_range(t, seg, p);
            out.push((lit, k));
            proof {
                assert(segments_view(out) =~= before + seq![(t@.subrange(seg as int, p as int), positional_at(t@, p as int))]);
            }
            p = p + 4;
            seg = p;
        } else {
            p = p + 1;
        }
    }
    let lit = string_of_range(t, seg, n);
    let ghost before = segments_view(out);
    out.push((lit, 0));
    proof {
        assert(segments_view(out) =~= before + seq![(t@.subrange(seg as int, n as int), 0nat)]);
    }
    out
}

/// The literals of segments joined back with a `%s` between each two.
pub open spec fn rejoin(s: Seq<(Seq<char>, nat)>) -> Seq<char>
    decreases s.len(),
{
    if s.len() <= 1 {
        if s.len() == 1 { s[0].0 } else { Seq::empty() }
    } else {
        s[0].0 + seq!['%', 's'] + rejoin(s.drop_first())
    }
}

proof fn lemma_split_from_sequential(t: Seq<char>, p: int, seg: int, counter: nat)
    requires
        0 <= seg <= p <= t.len(),
        forall|q: int| positional_at(t, q) == 0,
    ensures
        split_from(t, p, seg, counter).len() >= 1,
        rejoin(split_from(t, p, seg, counter)) == t.subrange(seg, t.len() as int),
        forall|j: int| 0 <= j < split_from(t, p, seg, counter).len() - 1
            ==> #[trigger] split_from(t, p, seg, counter)[j].1 == counter + j,
        split_from(t, p, seg, counter).last().1 == 0,
    decreases t.len() - p,
{
    let r = split_from(t, p, seg, counter);
    if p >= t.len() {
    } else if sequential_at(t, p) {
        lemma_split_from_sequential(t, p + 2, p + 2, counter + 1);
        let rest = split_from(t, p + 2, p + 2, counter + 1);
        let head = seq![(t.subrange(seg, p), counter)];
        assert(r == head + rest);
        assert(r.drop_first() =~= rest);
        assert(r[0] == (t.subrange(seg, p), counter));
        assert(t.subrange(seg, p) + seq!['%', 's'] + t.subrange(p + 2, t.len() as int) =~= t.subrange(seg, t.len() as int));
        assert forall|j: int| 0 <= j < r.len() - 1 implies #[trigger] r[j].1 == counter + j by {
            if j > 0 {
                assert(r[j] == rest[j - 1]);
            }
        }
        assert(r.last() == rest.last());
    } else {
        lemma_split_from_sequential(t, p + 1, seg, counter);
    }
}

/// Splitting a template whose only markers are sequential `%s` numbers its segments 1, 2, ...
/// in order with a final 0, and joining the segments back with `%s` gives the template again.
pub proof fn lemma_split_sequential_round_trip(t: Seq<char>)
    requires
        forall|q: int| positional_at(t, q) == 0,
    ensures
        split_template(t).len() >= 1,
        rejoin(split_template(t)) == t,
        forall|j: int| 0 <= j < split_template(t).len() - 1 ==> #[trigger] split_template(t)[j].1 == j + 1,
        split_template(t).last().1 == 0,
{
    lemma_split_from_sequential(t, 0, 0, 1);
    assert(t.subrange(0, t.len() as int) =~= t);
}

/// The placeholder with its separators resolved.
pub open spec fn resolve_separators<R: TextResolutor>(res: R, r: ResolvableModel) -> ResolvableModel
    decreases r,
{
    match r {
        ResolvableModel::Entity { selector, separator } => ResolvableModel::Entity {
            selector,
            separator: Box::new(resolve_model(res, *separator)),
        },
        ResolvableModel::NBT { path, interpret, separator, source } => ResolvableModel::NBT {
            path,
            interpret,
            separator: Box::new(resolve_model(res, *separator)),
            source,
        },
        ResolvableModel::Scoreboard { selector, objective } => ResolvableModel::Scoreboard { selector, objective },
    }
}

/// The overlay with the text of a show-text hover resolved.
pub open spec fn resolve_hover<R: TextResolutor>(res: R, i: InteractivityModel) -> InteractivityModel
    decreases i,
{
    InteractivityModel {
        hover: match i.hover {
            Some(HoverModel::ShowText { value }) => Some(HoverModel::ShowText { value: Box::new(resolve_model(res, *value)) }),
            h => h,
        },
        ..i
    }
}

/// Each component of a list resolved.
pub open spec fn resolve_all<R: TextResolutor>(res: R, s: Seq<ComponentModel>) -> Seq<ComponentModel>
    decreases s,
{
    Seq::new(s.len(), |i: int| if 0 <= i < s.len() { resolve_model(res, s[i]) } else { arbitrary() })
}

/// A replacement `x` put in the place of a node: the node's resolved children follow `x`'s
/// own, `x`'s format falls back on the node's, and the node's interactions fall back on `x`'s.
pub open spec fn put_in_place(
    x: ComponentModel,
    children: Seq<ComponentModel>,
    format: crate::format::FormatModel,
    interactions: InteractivityModel,
) -> ComponentModel {
    ComponentModel {
        content: x.content,
        children: x.children + children,
        format: mix_format(x.format, format),
        interactions: mix_interactions(interactions, x.interactions),
    }
}

/// The tree with every placeholder and custom content replaced through `res`: children,
/// translation arguments, separators and shown hover text are resolved first; a placeholder
/// node takes the resolver's answer in its place (see [put_in_place]), custom content the
/// registry's answer or an empty text; other nodes keep their content.
pub open spec fn resolve_model<R: TextResolutor>(res: R, c: ComponentModel) -> ComponentModel
    decreases c,
{
    let interactions = resolve_hover(res, c.interactions);
    let children = resolve_all(res, c.children);
    match c.content {
        ContentModel::Translate(m) => ComponentModel {
            content: ContentModel::Translate(MessageModel {
                args: match m.args {
                    Some(a) => Some(resolve_all(res, a)),
                    None => None,
                },
                ..m
            }),
            children,
            format: c.format,
            interactions,
        },
        ContentModel::Resolvable(r) => put_in_place(
            res.resolution(resolve_separators(res, r)),
            children,
            c.format,
            interactions,
        ),
        ContentModel::Custom(d) => put_in_place(
            match res.custom_resolution(d) {
                Some(x) => x,
                None => content_only(ContentModel::Text(Seq::empty())),
            },
            children,
            c.format,
            interactions,
        ),
        _ => ComponentModel { children, interactions, ..c },
    }
}

/// Resolves each component of a list.
pub fn resolve_components<R: TextResolutor>(v: &Vec<TextComponent>, resolutor: &R) -> (r: Vec<TextComponent>)
    ensures
        components_view(r) == resolve_all(*resolutor, components_view(*v)),
    decreases v,
{
    let mut out: Vec<TextComponent> = Vec::new();
    let mut i: usize = 0;
    while i < v.len()
        invariant
            i <= v@.len(),
            out@.len() == i,
            forall|j: int| 0 <= j < i ==> (#[trigger] out@[j])@ == resolve_model(*resolutor, v@[j]@),
        decreases v@.len() - i,
    {
        proof {
            assert(decreases_to!(*v => v@[i as int]));
        }
        out.push(v[i].resolve(resolutor));
        i += 1;
    }
    assert(components_view(out) =~= resolve_all(*resolutor, components_view(*v)));
    out
}

impl Interactivity {
    /// A copy of this overlay with the text of a show-text hover resolved.
    pub fn resolve<R: TextResolutor>(&self, resolutor: &R) -> (r: Interactivity)
        ensures
            r@ == resolve_hover(*resolutor, self@),
        decreases self,
    {
        Interactivity {
            insertion: copy_opt_string(&self.insertion),
            click: match &self.click {
                Some(c) => Some(c.copy()),
                None => None,
            },
            hover: match &self.hover {
                Some(HoverEvent::ShowText { value }) => Some(HoverEvent::ShowText { value: Box::new(value.resolve(resolutor)) }),
                Some(h) => Some(h.copy()),
                None => None,
            },
        }
    }
}

impl Resolvable {
    /// A copy of this placeholder with its separators resolved.
    pub fn resolve<R: TextResolutor>(&self, resolutor: &R) -> (r: Resolvable)
        ensures
            r@ == resolve_separators(*resolutor, self@),
        decreases self,
    {
        match self {
            Resolvable::Entity { selector, separator } => Resolvable::Entity {
                selector: copy_string(selector),
                separator: Box::new(separator.resolve(resolutor)),
            },
            Resolvable::NBT { path, interpret, separator, source } => Resolvable::NBT {
                path: copy_string(path),
                interpret: *interpret,
                separator: Box::new(separator.resolve(resolutor)),
                source: source.copy(),
            },
            Resolvable::Scoreboard { selector, objective } => Resolvable::Scoreboard {
                selector: copy_string(selector),
                objective: copy_string(objective),
            },
        }
    }
}

/// Puts a replacement in the place of a node; see [put_in_place].
fn place<R: TextResolutor>(
    x: TextComponent,
    children: Vec<TextComponent>,
    format: &crate::format::Format,
    interactions: Interactivity,
) -> (r: TextComponent)
    ensures
        r@ == put_in_place(x@, components_view(children), format@, interactions@),
{
    let TextComponent { content, children: mut own, format: xf, interactions: xi } = x;
    let ghost own0 = components_view(own);
    let mut rest = children;
    own.append(&mut rest);
    assert(components_view(own) =~= own0 + components_view(children));
    let mut inter = interactions;
    inter.mix(xi);
    TextComponent { content, children: own, format: xf.mix(format), interactions: inter }
}

impl TextComponent {
    /// The tree with every placeholder and custom content replaced through `resolutor`.
    /// A translation keeps its key and has its arguments resolved; its template is looked up
    /// when the tree is built, so one resolved tree can be built against several resolvers.
    pub fn resolve<R: TextResolutor>(&self, resolutor: &R) -> (r: TextComponent)
        ensures
            r@ == resolve_model(*resolutor, self@),
        decreases self,
    {
        let interactions = self.interactions.resolve(resolutor);
        let children = resolve_components(&self.children, resolutor);
        match &self.content {
            Content::Translate(message) => {
                let args = match &message.args {
                    Some(a) => Some(resolve_components(a, resolutor)),
                    None => None,
                };
                let ghost m = crate::translation::message_view(*message);
                assert(self@.content == ContentModel::Translate(m));
                let msg = TranslatedMessage {
                    key: copy_string(&message.key),
                    fallback: copy_opt_string(&message.fallback),
                    args,
                };
                assert(msg@.args == match m.args { Some(a) => Some(resolve_all(*resolutor, a)), None => None });
                assert(msg@ == (MessageModel { args: msg@.args, ..m }));
                let r = TextComponent {
                    content: Content::Translate(msg),
                    children,
                    format: self.format.copy(),
                    interactions,
                };
                r
            },
            Content::Resolvable(resolvable) => {
                let resolvable = resolvable.resolve(resolutor);
                let x = resolutor.resolve_content(&resolvable);
                place::<R>(x, children, &self.format, interactions)
            },
            Content::Custom(data) => {
                let x = match resolutor.resolve_custom(data) {
                    Some(x) => x,
                    None => TextComponent::new(),
                };
                place::<R>(x, children, &self.format, interactions)
            },
            content => TextComponent { content: content.copy(), children, format: self.format.copy(), interactions },
        }
    }
}

} // verus!

verus! {

/// A resolver that knows no translation and renders placeholders as bracketed labels.
pub struct NoResolutor;

/// The label a [NoResolutor] shows for a placeholder.
pub open spec fn placeholder_label(r: ResolvableModel) -> Seq<char> {
    match r {
        ResolvableModel::Scoreboard { objective, .. } => "[Score: "@ + objective + "]"@,
        ResolvableModel::Entity { selector, .. } => "[Entity: "@ + selector + "]"@,
        ResolvableModel::NBT { path, .. } => "[Nbt: "@ + path + "]"@,
    }
}

impl TextResolutor for NoResolutor {
    open spec fn resolution(&self, r: ResolvableModel) -> ComponentModel {
        content_only(ContentModel::Text(placeholder_label(r)))
    }

    open spec fn custom_resolution(&self, d: CustomModel) -> Option<ComponentModel> {
        Some(content_only(ContentModel::Text(d.id)))
    }

    open spec fn translation(&self, key: Seq<char>) -> Option<Seq<char>> {
        None
    }

    fn resolve_content(&self, resolvable: &Resolvable) -> (r: TextComponent) {
        let label = match resolvable {
            Resolvable::Scoreboard { objective, .. } => {
                let mut s = owned("[Score: ");
                push_str(&mut s, objective.as_str());
                push_str(&mut s, "]");
                s
            },
            Resolvable::Entity { selector, .. } => {
                let mut s = owned("[Entity: ");
                push_str(&mut s, selector.as_str());
                push_str(&mut s, "]");
                s
            },
            Resolvable::NBT { path, .. } => {
                let mut s = owned("[Nbt: ");
                push_str(&mut s, path.as_str());
                push_str(&mut s, "]");
                s
            },
        };
        TextComponent::with_content(Content::Text(label))
    }

    fn resolve_custom(&self, data: &CustomData) -> (r: Option<TextComponent>) {
        Some(TextComponent::with_content(Content::Text(copy_string(&data.id))))
    }

    fn translate(&self, key: &str) -> (r: Option<String>) {
        None
    }
}

/// A target that renders a resolved component into some representation.
pub trait BuildTarget {
    type Result;

    /// Renders a resolved component.
    fn build_component<R: TextResolutor>(&self, resolutor: &R, component: &TextComponent) -> Self::Result;
}

impl TextComponent {
    /// Resolves this component, then renders the result with `target`.
    pub fn build<R: TextResolutor, S: BuildTarget>(&self, resolutor: &R, target: S) -> S::Result {
        let resolved = self.resolve(resolutor);
        target.build_component(resolutor, &resolved)
    }
}

} // verus!

verus! {

/// Whether no placeholder and no custom content is left anywhere in the tree: in the
/// content, the arguments of a translation, the children or the text of a hover.
pub open spec fn is_resolved(c: ComponentModel) -> bool
    decreases c,
{
    &&& !(c.content is Resolvable)
    &&& !(c.content is Custom)
    &&& (c.content matches ContentModel::Translate(m) ==> (m.args matches Some(a) ==> forall|i: int|
        0 <= i < a.len() ==> is_resolved(#[trigger] a[i])))
    &&& forall|i: int| 0 <= i < c.children.len() ==> is_resolved(#[trigger] c.children[i])
    &&& (c.interactions.hover matches Some(HoverModel::ShowText { value }) ==> is_resolved(*value))
}

/// Resolving through a resolver whose answers hold no placeholder and no custom content
/// leaves none anywhere in the tree.
pub proof fn lemma_resolution_removes_placeholders<R: TextResolutor>(res: R, c: ComponentModel)
    requires
        forall|r: ResolvableModel| is_resolved(#[trigger] res.resolution(r)),
        forall|d: CustomModel| (#[trigger] res.custom_resolution(d)) matches Some(x) ==> is_resolved(x),
    ensures
        is_resolved(resolve_model(res, c)),
    decreases c,
{
    let out = resolve_model(res, c);
    let kids = resolve_all(res, c.children);
    assert forall|i: int| 0 <= i < kids.len() implies is_resolved(#[trigger] kids[i]) by {
        lemma_resolution_removes_placeholders(res, c.children[i]);
    }
    let inter = resolve_hover(res, c.interactions);
    if let Some(HoverModel::ShowText { value }) = c.interactions.hover {
        lemma_resolution_removes_placeholders(res, *value);
    }
    match c.content {
        ContentModel::Translate(m) => {
            if let Some(a) = m.args {
                let ra = resolve_all(res, a);
                assert forall|i: int| 0 <= i < ra.len() implies is_resolved(#[trigger] ra[i]) by {
                    lemma_resolution_removes_placeholders(res, a[i]);
                }
            }
        },
        ContentModel::Resolvable(r) => {
            let x = res.resolution(resolve_separators(res, r));
            assert(is_resolved(x));
            assert forall|i: int| 0 <= i < out.children.len() implies is_resolved(#[trigger] out.children[i]) by {
                if i < x.children.len() {
                    assert(out.children[i] == x.children[i]);
                } else {
                    assert(out.children[i] == kids[i - x.children.len()]);
                }
            }
        },
        ContentModel::Custom(d) => {
            let x = match res.custom_resolution(d) {
                Some(x) => x,
                None => content_only(ContentModel::Text(Seq::empty())),
            };
            assert(is_resolved(x));
            assert forall|i: int| 0 <= i < out.children.len() implies is_resolved(#[trigger] out.children[i]) by {
                if i < x.children.len() {
                    assert(out.children[i] == x.children[i]);
                } else {
                    assert(out.children[i] == kids[i - x.children.len()]);
                }
            }
        },
        _ => {},
    }
}

/// Resolving a placeholder node appends its children, each resolved on its own, after the
/// children of the resolver's answer: with a single child `child`, the last child of the
/// result is `child` resolved alone.
pub proof fn lemma_children_resolved_alone<R: TextResolutor>(res: R, c: ComponentModel, child: ComponentModel)
    requires
        c.content is Resolvable,
        c.children == seq![child],
    ensures
        resolve_model(res, c).children.len() >= 1,
        resolve_model(res, c).children.last() == resolve_model(res, child),
        resolve_model(res, c).children == res.resolution(resolve_separators(res, c.content->Resolvable_0)).children
            + seq![resolve_model(res, child)],
{
    let kids = resolve_all(res, c.children);
    assert(kids =~= seq![resolve_model(res, child)]);
}

/// Resolving a tree that is already resolved gives it back unchanged, whatever the resolver
/// answers for placeholders and custom content.
pub proof fn lemma_resolved_tree_unchanged<R: TextResolutor>(res: R, c: ComponentModel)
    requires
        is_resolved(c),
    ensures
        resolve_model(res, c) == c,
    decreases c,
{
    let kids = resolve_all(res, c.children);
    assert forall|i: int| 0 <= i < kids.len() implies #[trigger] kids[i] == c.children[i] by {
        lemma_resolved_tree_unchanged(res, c.children[i]);
    }
    assert(kids =~= c.children);
    let inter = resolve_hover(res, c.interactions);
    if let Some(HoverModel::ShowText { value }) = c.interactions.hover {
        lemma_resolved_tree_unchanged(res, *value);
    }
    assert(inter == c.interactions);
    if let ContentModel::Translate(m) = c.content {
        if let Some(a) = m.args {
            let ra = resolve_all(res, a);
            assert forall|i: int| 0 <= i < ra.len() implies #[trigger] ra[i] == a[i] by {
                lemma_resolved_tree_unchanged(res, a[i]);
            }
            assert(ra =~= a);
        }
    }
}

} // verus!
