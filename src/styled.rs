//! The styled builder: resolved components as text segments, each with the format to paint
//! it in, where obfuscated text is replaced character by character at random.
use vstd::prelude::*;
use crate::chars::{is_control, is_control_char, is_space, is_whitespace};
use crate::content::{Content, ContentModel};
use crate::fmt::{TextBuilder, own_text, parts_text, plain_all, plain_text};
use crate::format::{Format, FormatModel, empty_format, mix_format};
use crate::resolving::{BuildTarget, TextResolutor, resolve_model, split_template};
use crate::text::{chars_of, push_char};
use crate::{ComponentModel, TextComponent, components_view};

verus! {

/// A piece of rendered text and the format to paint it in.
#[derive(Debug)]
pub struct StyledSegment {
    pub text: String,
    pub format: Format,
}

impl View for StyledSegment {
    type V = (Seq<char>, FormatModel);

    open spec fn view(&self) -> (Seq<char>, FormatModel) {
        (self.text@, self.format@)
    }
}

/// The models of a list of segments.
pub open spec fn segments_model(v: Vec<StyledSegment>) -> Seq<(Seq<char>, FormatModel)> {
    Seq::new(v@.len(), |i: int| v@[i]@)
}

/// Whether `c` is one of the visually dense characters that obfuscation draws from:
/// U+0021 to U+007E, U+00A1 to U+00AC, U+00AE to U+02AF, and U+0386 to U+044F.
pub open spec fn in_alphabet(c: char) -> bool {
    (0x21 <= c as u32 <= 0x7e) || (0xa1 <= c as u32 <= 0xac) || (0xae <= c as u32 <= 0x2af)
        || (0x386 <= c as u32 <= 0x44f)
}

/// How many characters obfuscation draws from.
pub const ALPHABET_LEN: usize = 822;

/// Relies on `char::from_u32`: the character with a given scalar value, when there is one.
#[verifier::external_body]
fn char_from(v: u32) -> (r: Option<char>)
    ensures
        (v < 0xd800 || (0xe000 <= v && v <= 0x10ffff)) ==> r is Some,
        r matches Some(c) ==> c as u32 == v,
{
    char::from_u32(v)
}

/// Relies on `rand::random_range`: a value drawn uniformly from `0..n`, fresh on every call.
#[verifier::external_body]
fn random_below(n: usize) -> (r: usize)
    requires
        n > 0,
    ensures
        r < n,
{
    rand::random_range(0..n)
}

/// The character of the obfuscation alphabet at index `i`.
pub fn alphabet_char(i: usize) -> (c: char)
    requires
        i < ALPHABET_LEN,
    ensures
        in_alphabet(c),
{
    let v: u32 = if i < 94 {
        0x21 + i as u32
    } else if i < 106 {
        0xa1 + (i - 94) as u32
    } else if i < 620 {
        0xae + (i - 106) as u32
    } else {
        0x386 + (i - 620) as u32
    };
    match char_from(v) {
        Some(c) => c,
        None => '!',
    }
}

/// Whether `b` is `a` obfuscated when `on`: the same length, every white-space or control
/// character kept in place, every other character replaced by one of the alphabet; when not
/// `on`, `b` is `a`.
pub open spec fn obscured(a: Seq<char>, b: Seq<char>, on: bool) -> bool {
    &&& b.len() == a.len()
    &&& forall|j: int| 0 <= j < a.len() ==> if on && !is_space(a[j]) && !is_control_char(a[j]) {
        in_alphabet(#[trigger] b[j])
    } else {
        b[j] == a[j]
    }
}

/// Replaces each character that is neither white space nor a control character by one drawn
/// at random from the obfuscation alphabet; two calls on the same text differ in general.
pub fn obfuscate(text: &String) -> (r: String)
    ensures
        obscured(text@, r@, true),
{
    let cs = chars_of(text.as_str());
    let mut out = String::new();
    let mut i: usize = 0;
    while i < cs.len()
        invariant
            i <= cs@.len(),
            cs@ == text@,
            out@.len() == i,
            forall|j: int| 0 <= j < i ==> if !is_space(cs@[j]) && !is_control_char(cs@[j]) {
                in_alphabet(#[trigger] out@[j])
            } else {
                out@[j] == cs@[j]
            },
        decreases cs@.len() - i,
    {
        let c = cs[i];
        if !is_whitespace(c) && !is_control(c) {
            push_char(&mut out, alphabet_char(random_below(ALPHABET_LEN)));
        } else {
            push_char(&mut out, c);
        }
        i += 1;
    }
    out
}

/// The segments a component renders to before obfuscation, under the inherited format
/// `inh`: its own text in its format merged over `inh` (a translation: each literal in that
/// format followed by the argument it names, rendered under it; a translation with no
/// template: the fallback text in that format), then each child under the merged format.
pub open spec fn plan<R: TextResolutor>(res: R, c: ComponentModel, inh: FormatModel) -> Seq<(Seq<char>, FormatModel)>
    decreases c, 2nat,
{
    let f = mix_format(c.format, inh);
    let own = match c.content {
        ContentModel::Translate(m) => match res.translation(m.key) {
            Some(tpl) => {
                let parts = split_template(tpl);
                parts_plan(res, parts, m.args, f, parts.len())
            },
            None => seq![(own_text(res, c), f)],
        },
        _ => seq![(own_text(res, c), f)],
    };
    own + kids_plan(res, c.children, f, c.children.len())
}

/// The segments of the first `n` template parts under format `f`.
pub open spec fn parts_plan<R: TextResolutor>(
    res: R,
    parts: Seq<(Seq<char>, nat)>,
    args: Option<Seq<ComponentModel>>,
    f: FormatModel,
    n: nat,
) -> Seq<(Seq<char>, FormatModel)>
    decreases args, n,
{
    if n == 0 || n > parts.len() {
        Seq::empty()
    } else {
        let k = parts[n - 1].1;
        parts_plan(res, parts, args, f, (n - 1) as nat) + seq![(parts[n - 1].0, f)] + (
        if k != 0 && args is Some && k <= args->0.len() {
            plan(res, args->0[k - 1], f)
        } else {
            Seq::empty()
        })
    }
}

/// The segments of the first `n` components of `s` under format `f`.
pub open spec fn kids_plan<R: TextResolutor>(res: R, s: Seq<ComponentModel>, f: FormatModel, n: nat) -> Seq<(Seq<char>, FormatModel)>
    decreases s, n,
{
    if n == 0 || n > s.len() {
        Seq::empty()
    } else {
        kids_plan(res, s, f, (n - 1) as nat) + plan(res, s[n - 1], f)
    }
}

/// Whether rendered segments `out` follow `plan`: the same formats, and each text obfuscated
/// from the planned one exactly where its format says so.
pub open spec fn segments_follow(out: Seq<(Seq<char>, FormatModel)>, plan: Seq<(Seq<char>, FormatModel)>) -> bool {
    &&& out.len() == plan.len()
    &&& forall|i: int| 0 <= i < plan.len() ==> (#[trigger] out[i]).1 == plan[i].1
        && obscured(plan[i].0, out[i].0, plan[i].1.obfuscated == Some(true))
}

/// The texts of segments, joined.
pub open spec fn joined(s: Seq<(Seq<char>, FormatModel)>) -> Seq<char>
    decreases s.len(),
{
    if s.len() == 0 {
        Seq::empty()
    } else {
        joined(s.drop_last()) + s.last().0
    }
}

proof fn lemma_joined_single(x: (Seq<char>, FormatModel))
    ensures
        joined(seq![x]) == x.0,
{
    assert(seq![x].drop_last() =~= Seq::<(Seq<char>, FormatModel)>::empty());
    assert(joined(Seq::<(Seq<char>, FormatModel)>::empty()) == Seq::<char>::empty());
    assert(joined(seq![x]) =~= x.0);
}

proof fn lemma_joined_append(a: Seq<(Seq<char>, FormatModel)>, b: Seq<(Seq<char>, FormatModel)>)
    ensures
        joined(a + b) == joined(a) + joined(b),
    decreases b.len(),
{
    if b.len() == 0 {
        assert(a + b =~= a);
    } else {
        assert((a + b).drop_last() =~= a + b.drop_last());
        lemma_joined_append(a, b.drop_last());
    }
}

proof fn lemma_follow_append(
    a: Seq<(Seq<char>, FormatModel)>,
    p: Seq<(Seq<char>, FormatModel)>,
    b: Seq<(Seq<char>, FormatModel)>,
    q: Seq<(Seq<char>, FormatModel)>,
)
    requires
        segments_follow(a, p),
        segments_follow(b, q),
    ensures
        segments_follow(a + b, p + q),
{
    assert forall|i: int| 0 <= i < (p + q).len() implies (#[trigger] (a + b)[i]).1 == (p + q)[i].1
        && obscured((p + q)[i].0, (a + b)[i].0, (p + q)[i].1.obfuscated == Some(true)) by {
        if i < p.len() {
            assert((a + b)[i] == a[i]);
            assert((p + q)[i] == p[i]);
        } else {
            assert((a + b)[i] == b[i - a.len()]);
            assert((p + q)[i] == q[i - p.len()]);
        }
    }
}

/// The joined text of a plan is the plain text of the component, whatever the inherited format.
pub proof fn lemma_plan_text<R: TextResolutor>(res: R, c: ComponentModel, inh: FormatModel)
    ensures
        joined(plan(res, c, inh)) == plain_text(res, c),
    decreases c, 2nat,
{
    let f = mix_format(c.format, inh);
    lemma_kids_text(res, c.children, f, c.children.len());
    let own = match c.content {
        ContentModel::Translate(m) => match res.translation(m.key) {
            Some(tpl) => {
                let parts = split_template(tpl);
                parts_plan(res, parts, m.args, f, parts.len())
            },
            None => seq![(own_text(res, c), f)],
        },
        _ => seq![(own_text(res, c), f)],
    };
    lemma_joined_append(own, kids_plan(res, c.children, f, c.children.len()));
    match c.content {
        ContentModel::Translate(m) => match res.translation(m.key) {
            Some(tpl) => {
                let parts = split_template(tpl);
                lemma_parts_text(res, parts, m.args, f, parts.len());
            },
            None => {
                lemma_joined_single((own_text(res, c), f));
            },
        },
        _ => {
            lemma_joined_single((own_text(res, c), f));
        },
    }
}

proof fn lemma_parts_text<R: TextResolutor>(
    res: R,
    parts: Seq<(Seq<char>, nat)>,
    args: Option<Seq<ComponentModel>>,
    f: FormatModel,
    n: nat,
)
    ensures
        joined(parts_plan(res, parts, args, f, n)) == parts_text(res, parts, args, n),
    decreases args, n,
{
    if n == 0 || n > parts.len() {
    } else {
        let k = parts[n - 1].1;
        let prev = parts_plan(res, parts, args, f, (n - 1) as nat);
        let lit = seq![(parts[n - 1].0, f)];
        let arg = if k != 0 && args is Some && k <= args->0.len() {
            plan(res, args->0[k - 1], f)
        } else {
            Seq::empty()
        };
        lemma_parts_text(res, parts, args, f, (n - 1) as nat);
        lemma_joined_append(prev + lit, arg);
        lemma_joined_append(prev, lit);
        lemma_joined_single((parts[n - 1].0, f));
        if k != 0 && args is Some && k <= args->0.len() {
            lemma_plan_text(res, args->0[k - 1], f);
        } else {
            assert(joined(arg) =~= Seq::<char>::empty());
        }
        assert(joined(parts_plan(res, parts, args, f, n)) =~= parts_text(res, parts, args, n));
    }
}

proof fn lemma_kids_text<R: TextResolutor>(res: R, s: Seq<ComponentModel>, f: FormatModel, n: nat)
    ensures
        joined(kids_plan(res, s, f, n)) == plain_all(res, s, n),
    decreases s, n,
{
    if n == 0 || n > s.len() {
    } else {
        lemma_kids_text(res, s, f, (n - 1) as nat);
        lemma_plan_text(res, s[n - 1], f);
        lemma_joined_append(kids_plan(res, s, f, (n - 1) as nat), plan(res, s[n - 1], f));
    }
}

proof fn lemma_follow_joined(out: Seq<(Seq<char>, FormatModel)>, p: Seq<(Seq<char>, FormatModel)>)
    requires
        segments_follow(out, p),
    ensures
        joined(out).len() == joined(p).len(),
        forall|j: int| 0 <= j < joined(p).len() && (is_space(joined(p)[j]) || is_control_char(joined(p)[j]))
            ==> #[trigger] joined(out)[j] == joined(p)[j],
    decreases p.len(),
{
    if p.len() > 0 {
        let a = out.drop_last();
        let q = p.drop_last();
        assert(segments_follow(a, q)) by {
            assert forall|i: int| 0 <= i < q.len() implies (#[trigger] a[i]).1 == q[i].1
                && obscured(q[i].0, a[i].0, q[i].1.obfuscated == Some(true)) by {
                assert(a[i] == out[i]);
                assert(q[i] == p[i]);
            }
        }
        lemma_follow_joined(a, q);
        let i = p.len() - 1;
        assert(out[i].1 == p[i].1 && obscured(p[i].0, out[i].0, p[i].1.obfuscated == Some(true)));
        assert forall|j: int| 0 <= j < joined(p).len() && (is_space(joined(p)[j]) || is_control_char(joined(p)[j]))
            implies #[trigger] joined(out)[j] == joined(p)[j] by {
            if j < joined(q).len() {
                assert(joined(out)[j] == joined(a)[j]);
                assert(joined(p)[j] == joined(q)[j]);
            } else {
                let k = j - joined(q).len();
                assert(joined(out)[j] == out[i].0[k]);
                assert(joined(p)[j] == p[i].0[k]);
            }
        }
    }
}

/// Styled rendering keeps the plain text's shape: for segments that follow the plan of a
/// component, the joined text has as many characters as the component's plain text, and every
/// white-space or control character of the plain text stands unchanged in the same place.
pub proof fn lemma_styled_keeps_shape<R: TextResolutor>(
    res: R,
    c: ComponentModel,
    out: Seq<(Seq<char>, FormatModel)>,
)
    requires
        segments_follow(out, plan(res, c, empty_format())),
    ensures
        joined(out).len() == plain_text(res, c).len(),
        forall|j: int| 0 <= j < plain_text(res, c).len() && (is_space(plain_text(res, c)[j])
            || is_control_char(plain_text(res, c)[j])) ==> #[trigger] joined(out)[j] == plain_text(res, c)[j],
{
    lemma_plan_text(res, c, empty_format());
    lemma_follow_joined(out, plan(res, c, empty_format()));
}


/// The red, green and blue channels of a packed ARGB shadow colour.
pub fn shadow_rgb(shadow: u32) -> (r: (u8, u8, u8))
    ensures
        r.0 == (shadow / 65536) % 256,
        r.1 == (shadow / 256) % 256,
        r.2 == shadow % 256,
{
    (((shadow / 65536) % 256) as u8, ((shadow / 256) % 256) as u8, (shadow % 256) as u8)
}

/// Renders components as styled segments.
pub struct PrettyTextBuilder;

/// A segment of `text` in `format`, obfuscated when the format says so.
fn segment(text: String, format: Format) -> (r: StyledSegment)
    ensures
        r@.1 == format@,
        obscured(text@, r@.0, format@.obfuscated == Some(true)),
{
    let text = match format.obfuscated {
        Some(true) => obfuscate(&text),
        _ => text,
    };
    StyledSegment { text, format }
}

proof fn lemma_follow_one(seg: (Seq<char>, FormatModel), x: (Seq<char>, FormatModel))
    requires
        seg.1 == x.1,
        obscured(x.0, seg.0, x.1.obfuscated == Some(true)),
    ensures
        segments_follow(seq![seg], seq![x]),
{
}

impl PrettyTextBuilder {
    /// The segments of a resolved component under the inherited format `inherited`.
    pub fn build_segments<R: TextResolutor>(&self, resolutor: &R, component: &TextComponent, inherited: &Format) -> (r: Vec<StyledSegment>)
        ensures
            segments_follow(segments_model(r), plan(*resolutor, component@, inherited@)),
        decreases component, 2nat,
    {
        let f = component.format.mix(inherited);
        let mut out: Vec<StyledSegment> = Vec::new();
        let ghost own_plan: Seq<(Seq<char>, FormatModel)>;
        match &component.content {
            Content::Translate(message) => {
                match resolutor.translate(message.key.as_str()) {
                    Some(template) => {
                        let parts = resolutor.split_translation(template);
                        let ghost pv = crate::resolving::segments_view(parts);
                        let ghost m = crate::translation::message_view(*message);
                        let mut i: usize = 0;
                        assert(segments_model(out) =~= parts_plan(*resolutor, pv, m.args, f@, 0));
                        while i < parts.len()
                            invariant
                                i <= parts@.len(),
                                pv == crate::resolving::segments_view(parts),
                                m == crate::translation::message_view(*message),
                                component@.content == ContentModel::Translate(m),
                                component.content is Translate,
                                component.content->Translate_0 == *message,
                                segments_follow(segments_model(out), parts_plan(*resolutor, pv, m.args, f@, i as nat)),
                            decreases parts@.len() - i,
                        {
                            let pos = parts[i].1;
                            let ghost before = segments_model(out);
                            let seg = segment(crate::text::copy_string(&parts[i].0), f.copy());
                            proof {
                                lemma_follow_one(seg@, (pv[i as int].0, f@));
                            }
                            out.push(seg);
                            proof {
                                assert(segments_model(out) =~= before + seq![seg@]);
                                lemma_follow_append(before, parts_plan(*resolutor, pv, m.args, f@, i as nat), seq![seg@], seq![(pv[i as int].0, f@)]);
                            }
                            let ghost mid = segments_model(out);
                            let ghost mid_plan = parts_plan(*resolutor, pv, m.args, f@, i as nat) + seq![(pv[i as int].0, f@)];
                            match &message.args {
                                Some(args) => {
                                    if pos != 0 && pos <= args.len() {
                                        proof {
                                            assert(decreases_to!(*component => component.content));
                                            assert(decreases_to!(component.content => component.content->Translate_0));
                                            assert(decreases_to!(*message => message.args));
                                            assert(decreases_to!(message.args => *args));
                                            assert(decreases_to!(*args => args@[pos - 1]));
                                        }
                                        let mut sub = self.build_segments(resolutor, &args[pos - 1], &f);
                                        let ghost subm = segments_model(sub);
                                        out.append(&mut sub);
                                        proof {
                                            assert(segments_model(out) =~= mid + subm);
                                            lemma_follow_append(mid, mid_plan, subm, plan(*resolutor, m.args->0[pos - 1], f@));
                                            assert(mid_plan + plan(*resolutor, m.args->0[pos - 1], f@)
                                                =~= parts_plan(*resolutor, pv, m.args, f@, (i + 1) as nat));
                                        }
                                    } else {
                                        assert(mid_plan =~= parts_plan(*resolutor, pv, m.args, f@, (i + 1) as nat));
                                    }
                                },
                                None => {
                                    assert(mid_plan =~= parts_plan(*resolutor, pv, m.args, f@, (i + 1) as nat));
                                },
                            }
                            i += 1;
                        }
                        proof {
                            own_plan = parts_plan(*resolutor, pv, m.args, f@, pv.len());
                        }
                    },
                    None => {
                        let text = TextBuilder.stringify_content(resolutor, component);
                        let ghost tv = text@;
                        let seg = segment(text, f.copy());
                        proof {
                            lemma_follow_one(seg@, (tv, f@));
                        }
                        out.push(seg);
                        proof {
                            own_plan = seq![(own_text(*resolutor, component@), f@)];
                            assert(segments_model(out) =~= seq![seg@]);
                        }
                    },
                }
            },
            _ => {
                let text = TextBuilder.stringify_content(resolutor, component);
                let ghost tv = text@;
                let seg = segment(text, f.copy());
                proof {
                    lemma_follow_one(seg@, (tv, f@));
                }
                out.push(seg);
                proof {
                    own_plan = seq![(own_text(*resolutor, component@), f@)];
                    assert(segments_model(out) =~= seq![seg@]);
                }
            },
        }
        assert(segments_follow(segments_model(out), own_plan));
        let ghost kids = component@.children;
        let mut i: usize = 0;
        assert(own_plan + kids_plan(*resolutor, kids, f@, 0) =~= own_plan);
        while i < component.children.len()
            invariant
                i <= component.children@.len(),
                kids == component@.children,
                kids == components_view(component.children),
                segments_follow(segments_model(out), own_plan + kids_plan(*resolutor, kids, f@, i as nat)),
            decreases component.children@.len() - i,
        {
            proof {
                assert(decreases_to!(*component => component.children@[i as int]));
            }
            let ghost before = segments_model(out);
            let mut sub = self.build_segments(resolutor, &component.children[i], &f);
            let ghost subm = segments_model(sub);
            out.append(&mut sub);
            proof {
                assert(segments_model(out) =~= before + subm);
                lemma_follow_append(before, own_plan + kids_plan(*resolutor, kids, f@, i as nat), subm, plan(*resolutor, kids[i as int], f@));
                assert(own_plan + kids_plan(*resolutor, kids, f@, i as nat) + plan(*resolutor, kids[i as int], f@)
                    =~= own_plan + kids_plan(*resolutor, kids, f@, (i + 1) as nat));
            }
            i += 1;
        }
        out
    }
}

impl BuildTarget for PrettyTextBuilder {
    type Result = Vec<StyledSegment>;

    fn build_component<R: TextResolutor>(&self, resolutor: &R, component: &TextComponent) -> (r: Vec<StyledSegment>)
        ensures
            segments_follow(segments_model(r), plan(*resolutor, component@, empty_format())),
    {
        self.build_segments(resolutor, component, &Format::new())
    }
}

impl TextComponent {
    /// This component resolved and rendered as styled segments.
    pub fn to_pretty<R: TextResolutor>(&self, resolutor: &R) -> (r: Vec<StyledSegment>)
        ensures
            segments_follow(segments_model(r), plan(*resolutor, resolve_model(*resolutor, self@), empty_format())),
    {
        let resolved = self.resolve(resolutor);
        PrettyTextBuilder.build_segments(resolutor, &resolved, &Format::new())
    }
}

} // verus!
