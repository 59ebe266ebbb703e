//! A card component built from the view pieces, with the tags, attributes and texts it uses.
use vstd::prelude::*;
use vstd::view::View as _;
use vstd::string::StringSliceAdditionalSpecFns;

use crate::attributes::{attr_dyn, AttrName, DynAttr};
use crate::elements::{el, El, TagName};
use crate::op_builder::{
    after_text, balanced, count_dyn, drive_ok, drive_spec, dyn_kinds, dyns_led, initial_state,
    lemma_advance, lemma_counts_push, lemma_drive, lemma_kinds_push, lemma_run_append,
    lemma_run_push, run, state_inv, step, template_consistent, CAP, DriveState, FlatTemplate,
    PendingDynPath, RawOp, RawTape,
};
use crate::text::{dynamic, Dynamic};
use crate::traits::{value_kinds, AttributeModel, Built, DynamicValues, Raw, ValueModel, View};

verus! {

/// The `div` tag.
pub struct Div;

impl TagName for Div {
    const NAME: &'static str = "div";
}

/// The `h2` tag.
pub struct H2;

impl TagName for H2 {
    const NAME: &'static str = "h2";
}

/// The `p` tag.
pub struct P;

impl TagName for P {
    const NAME: &'static str = "p";
}

/// The `span` tag.
pub struct SpanTag;

impl TagName for SpanTag {
    const NAME: &'static str = "span";
}

/// The `style` attribute name.
pub struct StyleName;

impl AttrName for StyleName {
    const NAME: &'static str = "style";
}

/// A tape of three raw ops, none of them `Dyn`, `Open` or `Close`, holds none.
proof fn lemma_static_three(a: RawOp, b: RawOp, c: RawOp)
    requires
        !(a is Dyn || a is Open || a is Close),
        !(b is Dyn || b is Open || b is Close),
        !(c is Dyn || c is Open || c is Close),
    ensures
        count_dyn(seq![a, b, c]) == 0,
        balanced(seq![a, b, c]),
        dyns_led(seq![a, b, c]),
        dyn_kinds(seq![a, b, c]) == Seq::<bool>::empty(),
{
    let s0 = Seq::<RawOp>::empty();
    lemma_counts_push(s0, a);
    lemma_counts_push(s0.push(a), b);
    lemma_counts_push(s0.push(a).push(b), c);
    lemma_kinds_push(s0, a);
    lemma_kinds_push(s0.push(a), b);
    lemma_kinds_push(s0.push(a).push(b), c);
    assert(count_dyn(s0) == 0 && balanced(s0));
    assert(dyn_kinds(s0) =~= Seq::<bool>::empty());
    assert(seq![a, b, c] =~= s0.push(a).push(b).push(c));
}

/// A tape of two raw ops, none of them `Dyn`, `Open` or `Close`, holds none.
proof fn lemma_static_two(a: RawOp, b: RawOp)
    requires
        !(a is Dyn || a is Open || a is Close),
        !(b is Dyn || b is Open || b is Close),
    ensures
        count_dyn(seq![a, b]) == 0,
        balanced(seq![a, b]),
        dyns_led(seq![a, b]),
        dyn_kinds(seq![a, b]) == Seq::<bool>::empty(),
{
    let s0 = Seq::<RawOp>::empty();
    lemma_counts_push(s0, a);
    lemma_counts_push(s0.push(a), b);
    lemma_kinds_push(s0, a);
    lemma_kinds_push(s0.push(a), b);
    assert(count_dyn(s0) == 0 && balanced(s0));
    assert(dyn_kinds(s0) =~= Seq::<bool>::empty());
    assert(seq![a, b] =~= s0.push(a).push(b));
}

/// The static attribute `class="card"`.
pub struct CardClass;

impl Raw for CardClass {
    open spec fn raw_spec() -> Seq<RawOp> {
        seq![RawOp::Attr, RawOp::Text("class"), RawOp::Text("card")]
    }

    fn raw() -> (tape: RawTape) {
        RawTape::new().push(RawOp::Attr).push(RawOp::Text("class")).push(RawOp::Text("card"))
    }

    proof fn lemma_balanced() {
        lemma_static_three(RawOp::Attr, RawOp::Text("class"), RawOp::Text("card"));
    }
}

impl View for CardClass {
    open spec fn dynamic_spec(&self) -> Seq<ValueModel> {
        Seq::empty()
    }

    proof fn lemma_dynamic_kinds(&self) {
        lemma_static_three(RawOp::Attr, RawOp::Text("class"), RawOp::Text("card"));
        assert(value_kinds(Seq::<ValueModel>::empty()) =~= Seq::<bool>::empty());
    }

    fn push(self, dynamic: &mut DynamicValues) {
        assert(dynamic@ =~= dynamic@ + Seq::<ValueModel>::empty());
    }
}

/// The static attribute `class="badge"`.
pub struct BadgeClass;

impl Raw for BadgeClass {
    open spec fn raw_spec() -> Seq<RawOp> {
        seq![RawOp::Attr, RawOp::Text("class"), RawOp::Text("badge")]
    }

    fn raw() -> (tape: RawTape) {
        RawTape::new().push(RawOp::Attr).push(RawOp::Text("class")).push(RawOp::Text("badge"))
    }

    proof fn lemma_balanced() {
        lemma_static_three(RawOp::Attr, RawOp::Text("class"), RawOp::Text("badge"));
    }
}

impl View for BadgeClass {
    open spec fn dynamic_spec(&self) -> Seq<ValueModel> {
        Seq::empty()
    }

    proof fn lemma_dynamic_kinds(&self) {
        lemma_static_three(RawOp::Attr, RawOp::Text("class"), RawOp::Text("badge"));
        assert(value_kinds(Seq::<ValueModel>::empty()) =~= Seq::<bool>::empty());
    }

    fn push(self, dynamic: &mut DynamicValues) {
        assert(dynamic@ =~= dynamic@ + Seq::<ValueModel>::empty());
    }
}

/// The static attribute `data-role="title"`.
pub struct TitleRole;

impl Raw for TitleRole {
    open spec fn raw_spec() -> Seq<RawOp> {
        seq![RawOp::Attr, RawOp::Text("data-role"), RawOp::Text("title")]
    }

    fn raw() -> (tape: RawTape) {
        RawTape::new().push(RawOp::Attr).push(RawOp::Text("data-role")).push(RawOp::Text("title"))
    }

    proof fn lemma_balanced() {
        lemma_static_three(RawOp::Attr, RawOp::Text("data-role"), RawOp::Text("title"));
    }
}

impl View for TitleRole {
    open spec fn dynamic_spec(&self) -> Seq<ValueModel> {
        Seq::empty()
    }

    proof fn lemma_dynamic_kinds(&self) {
        lemma_static_three(RawOp::Attr, RawOp::Text("data-role"), RawOp::Text("title"));
        assert(value_kinds(Seq::<ValueModel>::empty()) =~= Seq::<bool>::empty());
    }

    fn push(self, dynamic: &mut DynamicValues) {
        assert(dynamic@ =~= dynamic@ + Seq::<ValueModel>::empty());
    }
}

/// The static text `Title: `.
pub struct TitlePrefix;

impl Raw for TitlePrefix {
    open spec fn raw_spec() -> Seq<RawOp> {
        seq![RawOp::TextNode, RawOp::Text("Title: ")]
    }

    fn raw() -> (tape: RawTape) {
        RawTape::new().push(RawOp::TextNode).push(RawOp::Text("Title: "))
    }

    proof fn lemma_balanced() {
        lemma_static_two(RawOp::TextNode, RawOp::Text("Title: "));
    }
}

impl View for TitlePrefix {
    open spec fn dynamic_spec(&self) -> Seq<ValueModel> {
        Seq::empty()
    }

    proof fn lemma_dynamic_kinds(&self) {
        lemma_static_two(RawOp::TextNode, RawOp::Text("Title: "));
        assert(value_kinds(Seq::<ValueModel>::empty()) =~= Seq::<bool>::empty());
    }

    fn push(self, dynamic: &mut DynamicValues) {
        assert(dynamic@ =~= dynamic@ + Seq::<ValueModel>::empty());
    }
}

/// The static text `Hello, `.
pub struct HelloPrefix;

impl Raw for HelloPrefix {
    open spec fn raw_spec() -> Seq<RawOp> {
        seq![RawOp::TextNode, RawOp::Text("Hello, ")]
    }

    fn raw() -> (tape: RawTape) {
        RawTape::new().push(RawOp::TextNode).push(RawOp::Text("Hello, "))
    }

    proof fn lemma_balanced() {
        lemma_static_two(RawOp::TextNode, RawOp::Text("Hello, "));
    }
}

impl View for HelloPrefix {
    open spec fn dynamic_spec(&self) -> Seq<ValueModel> {
        Seq::empty()
    }

    proof fn lemma_dynamic_kinds(&self) {
        lemma_static_two(RawOp::TextNode, RawOp::Text("Hello, "));
        assert(value_kinds(Seq::<ValueModel>::empty()) =~= Seq::<bool>::empty());
    }

    fn push(self, dynamic: &mut DynamicValues) {
        assert(dynamic@ =~= dynamic@ + Seq::<ValueModel>::empty());
    }
}

/// A `span` with `class="badge"` around `C`.
pub type Badge<C> = El<SpanTag, ((), BadgeClass), ((), C)>;

/// The title of a card.
pub type CardTitle = El<H2, ((), TitleRole), (((), TitlePrefix), Dynamic)>;

/// The greeting of a card.
pub type CardGreeting = El<P, ((), CardClass), (((), HelloPrefix), Badge<Dynamic>)>;

/// A card: a `div` with a dynamic style, a title and a greeting.
pub type Card = El<Div, (((), CardClass), DynAttr<StyleName>), (((), CardTitle), CardGreeting)>;

/// `content` in a badge.
pub fn badge<C: View>(content: C) -> (b: Badge<C>)
    ensures
        b.dynamic_spec() == content.dynamic_spec(),
{
    let b = el::<SpanTag>().attr(BadgeClass).child(content);
    assert(b.dynamic_spec() =~= content.dynamic_spec());
    b
}

/// A card with the dynamic values `style` (its style attribute), `title` and `name`.
pub fn card(style: &str, title: &str, name: &str) -> (c: Card)
    ensures
        c.dynamic_spec() == seq![
            ValueModel::Attributes(
                seq![
                    AttributeModel {
                        name: StyleName::NAME@,
                        value: style@,
                        namespace: None,
                        volatile: false,
                    },
                ],
            ),
            ValueModel::Text(title@),
            ValueModel::Text(name@),
        ],
{
    let title_el = el::<H2>().attr(TitleRole).child(TitlePrefix).child(dynamic(title));
    let greeting = el::<P>().attr(CardClass).child(HelloPrefix).child(badge(dynamic(name)));
    let c = el::<Div>().attr(CardClass).attr(attr_dyn::<StyleName>(style)).child(title_el).child(
        greeting,
    );
    assert(title_el.dynamic_spec() =~= seq![ValueModel::Text(title@)]);
    assert(greeting.dynamic_spec() =~= seq![ValueModel::Text(name@)]);
    assert(c.dynamic_spec() =~= seq![
        ValueModel::Attributes(
            seq![
                AttributeModel {
                    name: StyleName::NAME@,
                    value: style@,
                    namespace: None,
                    volatile: false,
                },
            ],
        ),
        ValueModel::Text(title@),
        ValueModel::Text(name@),
    ]);
    c
}

/// The template of `V`, read off a value of that type.
pub fn template_of<V: Raw>(_v: &V) -> (t: FlatTemplate)
    requires
        drive_ok(V::raw_spec()),
    ensures
        t.wf(),
        t.model() == drive_spec(V::raw_spec()),
{
    <V as Built>::template()
}


/// The bytes of the strings that a card interns.
proof fn lemma_card_strings()
    ensures
        Div::NAME.spec_bytes().len() == 3,
        "class".spec_bytes().len() == 5,
        "card".spec_bytes().len() == 4,
        StyleName::NAME.spec_bytes().len() == 5,
        H2::NAME.spec_bytes().len() == 2,
        "data-role".spec_bytes().len() == 9,
        "title".spec_bytes().len() == 5,
        "Title: ".spec_bytes().len() == 7,
        P::NAME.spec_bytes().len() == 1,
        "Hello, ".spec_bytes().len() == 7,
        SpanTag::NAME.spec_bytes().len() == 4,
        "badge".spec_bytes().len() == 5,
{
    reveal_strlit("div");
    vstd::string::is_ascii_spec_bytes("div");
    reveal_strlit("class");
    vstd::string::is_ascii_spec_bytes("class");
    reveal_strlit("card");
    vstd::string::is_ascii_spec_bytes("card");
    reveal_strlit("style");
    vstd::string::is_ascii_spec_bytes("style");
    reveal_strlit("h2");
    vstd::string::is_ascii_spec_bytes("h2");
    reveal_strlit("data-role");
    vstd::string::is_ascii_spec_bytes("data-role");
    reveal_strlit("title");
    vstd::string::is_ascii_spec_bytes("title");
    reveal_strlit("Title: ");
    vstd::string::is_ascii_spec_bytes("Title: ");
    reveal_strlit("p");
    vstd::string::is_ascii_spec_bytes("p");
    reveal_strlit("Hello, ");
    vstd::string::is_ascii_spec_bytes("Hello, ");
    reveal_strlit("span");
    vstd::string::is_ascii_spec_bytes("span");
    reveal_strlit("badge");
    vstd::string::is_ascii_spec_bytes("badge");
}

/// The bytes of the strings that a card interns, in the order it first interns them.
spec fn card_strings() -> Seq<Seq<u8>> {
    seq![
        Div::NAME.spec_bytes(),
        "class".spec_bytes(),
        "card".spec_bytes(),
        StyleName::NAME.spec_bytes(),
        H2::NAME.spec_bytes(),
        "data-role".spec_bytes(),
        "title".spec_bytes(),
        "Title: ".spec_bytes(),
        P::NAME.spec_bytes(),
        "Hello, ".spec_bytes(),
        SpanTag::NAME.spec_bytes(),
        "badge".spec_bytes(),
    ]
}

/// Whether every string of `kept` stands among `strings`.
spec fn holds_all(strings: Seq<Seq<u8>>, kept: Seq<Seq<u8>>) -> bool {
    forall|i: int| 0 <= i < kept.len() ==> strings.contains(#[trigger] kept[i])
}

/// Whether a string has room among `strings`: it is there, or there is room for one
/// more string and for its bytes.
spec fn string_room(strings: Seq<Seq<u8>>, s: Seq<u8>) -> bool {
    strings.contains(s) || (strings.len() < CAP && strings.flatten().len() + s.len() <= CAP)
}

/// Whether `st` has room for `op`: what a step asks.
spec fn room_for(st: DriveState, op: RawOp) -> bool {
    match op {
        RawOp::Open(tag) => st.stack.len() + 2 <= CAP && st.ops.len() + 2 <= CAP && string_room(
            st.strings,
            tag.spec_bytes(),
        ),
        RawOp::Close => st.stack.len() >= 1,
        RawOp::Attr => st.stack.len() >= 1 && st.ops.len() < CAP,
        RawOp::TextNode => st.ops.len() < CAP,
        RawOp::Text(s) => st.ops.len() < CAP && string_room(st.strings, s.spec_bytes()),
        RawOp::Dyn => st.ops.len() < CAP && st.dyns.len() < CAP && !(st.pending is Unset),
    }
}

/// One step of lowering from `s0`, after the ops `p` took it to `st`: where there is
/// room, the step is taken, the strings in `kept` stay, and the sizes move as
/// `lemma_advance` says.
proof fn lemma_card_step(
    s0: DriveState,
    p: Seq<RawOp>,
    st: DriveState,
    op: RawOp,
    kept: Seq<Seq<u8>>,
)
    requires
        state_inv(st),
        run(s0, p) == Some(st),
        room_for(st, op),
        holds_all(st.strings, kept),
    ensures
        step(st, op) is Some,
        run(s0, p.push(op)) == step(st, op),
        state_inv(step(st, op).unwrap()),
        holds_all(step(st, op).unwrap().strings, kept),
        step(st, op).unwrap().ops.len() + st.stack.len() == st.ops.len() + step(
            st,
            op,
        ).unwrap().stack.len() + 1,
        step(st, op).unwrap().dyns.len() == st.dyns.len() + (if op is Dyn {
            1nat
        } else {
            0nat
        }),
        step(st, op).unwrap().stack.len() + (if op is Close {
            1nat
        } else {
            0nat
        }) == st.stack.len() + (if op is Open {
            1nat
        } else {
            0nat
        }),
        step(st, op).unwrap().strings.len() <= st.strings.len() + 1,
        match op {
            RawOp::Open(s) => {
                &&& step(st, op).unwrap().strings.contains(s.spec_bytes())
                &&& step(st, op).unwrap().strings.flatten().len() <= st.strings.flatten().len()
                    + s.spec_bytes().len()
                &&& st.strings.contains(s.spec_bytes()) ==> step(st, op).unwrap().strings
                    == st.strings
            },
            RawOp::Text(s) => {
                &&& step(st, op).unwrap().strings.contains(s.spec_bytes())
                &&& step(st, op).unwrap().strings.flatten().len() <= st.strings.flatten().len()
                    + s.spec_bytes().len()
                &&& st.strings.contains(s.spec_bytes()) ==> step(st, op).unwrap().strings
                    == st.strings
                &&& step(st, op).unwrap().pending == after_text(st.pending)
            },
            _ => step(st, op).unwrap().strings == st.strings,
        },
        op is Attr ==> step(st, op).unwrap().pending matches PendingDynPath::Attr {
            remaining_static_text: 2,
            ..
        },
        op is TextNode ==> step(st, op).unwrap().pending is Node,
{
    lemma_advance(st, op);
    lemma_run_push(s0, p, op);
    let next = step(st, op).unwrap();
    assert forall|i: int| 0 <= i < kept.len() implies next.strings.contains(#[trigger] kept[i]) by {
        assert(st.strings.contains(kept[i]));
    }
}

/// The raw ops of a card, part 0:
/// the card's `div` and its class.
pub open spec fn card_ops_0() -> Seq<RawOp> {
    seq![
        RawOp::Open(Div::NAME),
        RawOp::Attr,
        RawOp::Text("class"),
        RawOp::Text("card"),
    ]
}

/// The raw ops of a card, part 1:
/// the card's style.
pub open spec fn card_ops_1() -> Seq<RawOp> {
    seq![
        RawOp::Attr,
        RawOp::Text(StyleName::NAME),
        RawOp::Dyn,
    ]
}

/// The raw ops of a card, part 2:
/// the title's `h2` and its role.
pub open spec fn card_ops_2() -> Seq<RawOp> {
    seq![
        RawOp::Open(H2::NAME),
        RawOp::Attr,
        RawOp::Text("data-role"),
        RawOp::Text("title"),
    ]
}

/// The raw ops of a card, part 3:
/// the title's two texts, and the end of the title.
pub open spec fn card_ops_3() -> Seq<RawOp> {
    seq![
        RawOp::TextNode,
        RawOp::Text("Title: "),
        RawOp::TextNode,
        RawOp::Dyn,
        RawOp::Close,
    ]
}

/// The raw ops of a card, part 4:
/// the greeting's `p` and its class.
pub open spec fn card_ops_4() -> Seq<RawOp> {
    seq![
        RawOp::Open(P::NAME),
        RawOp::Attr,
        RawOp::Text("class"),
        RawOp::Text("card"),
    ]
}

/// The raw ops of a card, part 5:
/// the greeting's text.
pub open spec fn card_ops_5() -> Seq<RawOp> {
    seq![
        RawOp::TextNode,
        RawOp::Text("Hello, "),
    ]
}

/// The raw ops of a card, part 6:
/// the badge's `span` and its class.
pub open spec fn card_ops_6() -> Seq<RawOp> {
    seq![
        RawOp::Open(SpanTag::NAME),
        RawOp::Attr,
        RawOp::Text("class"),
        RawOp::Text("badge"),
    ]
}

/// The raw ops of a card, part 7:
/// the badge's text, and the end of the badge, the greeting and the card.
pub open spec fn card_ops_7() -> Seq<RawOp> {
    seq![
        RawOp::TextNode,
        RawOp::Dyn,
        RawOp::Close,
        RawOp::Close,
        RawOp::Close,
    ]
}

proof fn lemma_card_part_0(st: DriveState) -> (r: DriveState)
    requires
        state_inv(st),
        st.ops.len() == 0,
        st.stack.len() == 0,
        st.dyns.len() == 0,
        st.strings.len() <= 0,
        st.strings.flatten().len() <= 0,
    ensures
        run(st, card_ops_0()) == Some(r),
        state_inv(r),
        r.ops.len() == 5,
        r.stack.len() == 1,
        r.dyns.len() == 0,
        r.strings.len() <= 3,
        r.strings.flatten().len() <= 12,
        holds_all(r.strings, card_strings().take(3)),
{
    lemma_card_strings();
    let s0 = st;
    let p0 = Seq::<RawOp>::empty();
    lemma_card_step(s0, p0, s0, RawOp::Open(Div::NAME), card_strings().take(0));
    let s1 = step(s0, RawOp::Open(Div::NAME)).unwrap();
    let p1 = p0.push(RawOp::Open(Div::NAME));
    assert(holds_all(s1.strings, card_strings().take(1)));
    lemma_card_step(s0, p1, s1, RawOp::Attr, card_strings().take(1));
    let s2 = step(s1, RawOp::Attr).unwrap();
    let p2 = p1.push(RawOp::Attr);
    lemma_card_step(s0, p2, s2, RawOp::Text("class"), card_strings().take(1));
    let s3 = step(s2, RawOp::Text("class")).unwrap();
    let p3 = p2.push(RawOp::Text("class"));
    assert(holds_all(s3.strings, card_strings().take(2)));
    lemma_card_step(s0, p3, s3, RawOp::Text("card"), card_strings().take(2));
    let s4 = step(s3, RawOp::Text("card")).unwrap();
    let p4 = p3.push(RawOp::Text("card"));
    assert(holds_all(s4.strings, card_strings().take(3)));
    assert(p4 =~= card_ops_0());
    s4
}

proof fn lemma_card_part_1(st: DriveState) -> (r: DriveState)
    requires
        state_inv(st),
        st.ops.len() == 5,
        st.stack.len() == 1,
        st.dyns.len() == 0,
        st.strings.len() <= 3,
        st.strings.flatten().len() <= 12,
        holds_all(st.strings, card_strings().take(3)),
    ensures
        run(st, card_ops_1()) == Some(r),
        state_inv(r),
        r.ops.len() == 8,
        r.stack.len() == 1,
        r.dyns.len() == 1,
        r.strings.len() <= 4,
        r.strings.flatten().len() <= 17,
        holds_all(r.strings, card_strings().take(4)),
{
    lemma_card_strings();
    let s0 = st;
    let p0 = Seq::<RawOp>::empty();
    lemma_card_step(s0, p0, s0, RawOp::Attr, card_strings().take(3));
    let s1 = step(s0, RawOp::Attr).unwrap();
    let p1 = p0.push(RawOp::Attr);
    lemma_card_step(s0, p1, s1, RawOp::Text(StyleName::NAME), card_strings().take(3));
    let s2 = step(s1, RawOp::Text(StyleName::NAME)).unwrap();
    let p2 = p1.push(RawOp::Text(StyleName::NAME));
    assert(holds_all(s2.strings, card_strings().take(4)));
    lemma_card_step(s0, p2, s2, RawOp::Dyn, card_strings().take(4));
    let s3 = step(s2, RawOp::Dyn).unwrap();
    let p3 = p2.push(RawOp::Dyn);
    assert(p3 =~= card_ops_1());
    s3
}

proof fn lemma_card_part_2(st: DriveState) -> (r: DriveState)
    requires
        state_inv(st),
        st.ops.len() == 8,
        st.stack.len() == 1,
        st.dyns.len() == 1,
        st.strings.len() <= 4,
        st.strings.flatten().len() <= 17,
        holds_all(st.strings, card_strings().take(4)),
    ensures
        run(st, card_ops_2()) == Some(r),
        state_inv(r),
        r.ops.len() == 13,
        r.stack.len() == 2,
        r.dyns.len() == 1,
        r.strings.len() <= 7,
        r.strings.flatten().len() <= 33,
        holds_all(r.strings, card_strings().take(7)),
{
    lemma_card_strings();
    let s0 = st;
    let p0 = Seq::<RawOp>::empty();
    lemma_card_step(s0, p0, s0, RawOp::Open(H2::NAME), card_strings().take(4));
    let s1 = step(s0, RawOp::Open(H2::NAME)).unwrap();
    let p1 = p0.push(RawOp::Open(H2::NAME));
    assert(holds_all(s1.strings, card_strings().take(5)));
    lemma_card_step(s0, p1, s1, RawOp::Attr, card_strings().take(5));
    let s2 = step(s1, RawOp::Attr).unwrap();
    let p2 = p1.push(RawOp::Attr);
    lemma_card_step(s0, p2, s2, RawOp::Text("data-role"), card_strings().take(5));
    let s3 = step(s2, RawOp::Text("data-role")).unwrap();
    let p3 = p2.push(RawOp::Text("data-role"));
    assert(holds_all(s3.strings, card_strings().take(6)));
    lemma_card_step(s0, p3, s3, RawOp::Text("title"), card_strings().take(6));
    let s4 = step(s3, RawOp::Text("title")).unwrap();
    let p4 = p3.push(RawOp::Text("title"));
    assert(holds_all(s4.strings, card_strings().take(7)));
    assert(p4 =~= card_ops_2());
    s4
}

proof fn lemma_card_part_3(st: DriveState) -> (r: DriveState)
    requires
        state_inv(st),
        st.ops.len() == 13,
        st.stack.len() == 2,
        st.dyns.len() == 1,
        st.strings.len() <= 7,
        st.strings.flatten().len() <= 33,
        holds_all(st.strings, card_strings().take(7)),
    ensures
        run(st, card_ops_3()) == Some(r),
        state_inv(r),
        r.ops.len() == 17,
        r.stack.len() == 1,
        r.dyns.len() == 2,
        r.strings.len() <= 8,
        r.strings.flatten().len() <= 40,
        holds_all(r.strings, card_strings().take(8)),
{
    lemma_card_strings();
    let s0 = st;
    let p0 = Seq::<RawOp>::empty();
    lemma_card_step(s0, p0, s0, RawOp::TextNode, card_strings().take(7));
    let s1 = step(s0, RawOp::TextNode).unwrap();
    let p1 = p0.push(RawOp::TextNode);
    lemma_card_step(s0, p1, s1, RawOp::Text("Title: "), card_strings().take(7));
    let s2 = step(s1, RawOp::Text("Title: ")).unwrap();
    let p2 = p1.push(RawOp::Text("Title: "));
    assert(holds_all(s2.strings, card_strings().take(8)));
    lemma_card_step(s0, p2, s2, RawOp::TextNode, card_strings().take(8));
    let s3 = step(s2, RawOp::TextNode).unwrap();
    let p3 = p2.push(RawOp::TextNode);
    lemma_card_step(s0, p3, s3, RawOp::Dyn, card_strings().take(8));
    let s4 = step(s3, RawOp::Dyn).unwrap();
    let p4 = p3.push(RawOp::Dyn);
    lemma_card_step(s0, p4, s4, RawOp::Close, card_strings().take(8));
    let s5 = step(s4, RawOp::Close).unwrap();
    let p5 = p4.push(RawOp::Close);
    assert(p5 =~= card_ops_3());
    s5
}

proof fn lemma_card_part_4(st: DriveState) -> (r: DriveState)
    requires
        state_inv(st),
        st.ops.len() == 17,
        st.stack.len() == 1,
        st.dyns.len() == 2,
        st.strings.len() <= 8,
        st.strings.flatten().len() <= 40,
        holds_all(st.strings, card_strings().take(8)),
    ensures
        run(st, card_ops_4()) == Some(r),
        state_inv(r),
        r.ops.len() == 22,
        r.stack.len() == 2,
        r.dyns.len() == 2,
        r.strings.len() <= 9,
        r.strings.flatten().len() <= 41,
        holds_all(r.strings, card_strings().take(9)),
{
    lemma_card_strings();
    let s0 = st;
    let p0 = Seq::<RawOp>::empty();
    lemma_card_step(s0, p0, s0, RawOp::Open(P::NAME), card_strings().take(8));
    let s1 = step(s0, RawOp::Open(P::NAME)).unwrap();
    let p1 = p0.push(RawOp::Open(P::NAME));
    assert(holds_all(s1.strings, card_strings().take(9)));
    lemma_card_step(s0, p1, s1, RawOp::Attr, card_strings().take(9));
    let s2 = step(s1, RawOp::Attr).unwrap();
    let p2 = p1.push(RawOp::Attr);
    assert(s2.strings.contains(card_strings().take(9)[1]));
    lemma_card_step(s0, p2, s2, RawOp::Text("class"), card_strings().take(9));
    let s3 = step(s2, RawOp::Text("class")).unwrap();
    let p3 = p2.push(RawOp::Text("class"));
    assert(holds_all(s3.strings, card_strings().take(9)));
    assert(s3.strings.contains(card_strings().take(9)[2]));
    lemma_card_step(s0, p3, s3, RawOp::Text("card"), card_strings().take(9));
    let s4 = step(s3, RawOp::Text("card")).unwrap();
    let p4 = p3.push(RawOp::Text("card"));
    assert(holds_all(s4.strings, card_strings().take(9)));
    assert(p4 =~= card_ops_4());
    s4
}

proof fn lemma_card_part_5(st: DriveState) -> (r: DriveState)
    requires
        state_inv(st),
        st.ops.len() == 22,
        st.stack.len() == 2,
        st.dyns.len() == 2,
        st.strings.len() <= 9,
        st.strings.flatten().len() <= 41,
        holds_all(st.strings, card_strings().take(9)),
    ensures
        run(st, card_ops_5()) == Some(r),
        state_inv(r),
        r.ops.len() == 24,
        r.stack.len() == 2,
        r.dyns.len() == 2,
        r.strings.len() <= 10,
        r.strings.flatten().len() <= 48,
        holds_all(r.strings, card_strings().take(10)),
{
    lemma_card_strings();
    let s0 = st;
    let p0 = Seq::<RawOp>::empty();
    lemma_card_step(s0, p0, s0, RawOp::TextNode, card_strings().take(9));
    let s1 = step(s0, RawOp::TextNode).unwrap();
    let p1 = p0.push(RawOp::TextNode);
    lemma_card_step(s0, p1, s1, RawOp::Text("Hello, "), card_strings().take(9));
    let s2 = step(s1, RawOp::Text("Hello, ")).unwrap();
    let p2 = p1.push(RawOp::Text("Hello, "));
    assert(holds_all(s2.strings, card_strings().take(10)));
    assert(p2 =~= card_ops_5());
    s2
}

proof fn lemma_card_part_6(st: DriveState) -> (r: DriveState)
    requires
        state_inv(st),
        st.ops.len() == 24,
        st.stack.len() == 2,
        st.dyns.len() == 2,
        st.strings.len() <= 10,
        st.strings.flatten().len() <= 48,
        holds_all(st.strings, card_strings().take(10)),
    ensures
        run(st, card_ops_6()) == Some(r),
        state_inv(r),
        r.ops.len() == 29,
        r.stack.len() == 3,
        r.dyns.len() == 2,
        r.strings.len() <= 12,
        r.strings.flatten().len() <= 57,
        holds_all(r.strings, card_strings().take(12)),
{
    lemma_card_strings();
    let s0 = st;
    let p0 = Seq::<RawOp>::empty();
    lemma_card_step(s0, p0, s0, RawOp::Open(SpanTag::NAME), card_strings().take(10));
    let s1 = step(s0, RawOp::Open(SpanTag::NAME)).unwrap();
    let p1 = p0.push(RawOp::Open(SpanTag::NAME));
    assert(holds_all(s1.strings, card_strings().take(11)));
    lemma_card_step(s0, p1, s1, RawOp::Attr, card_strings().take(11));
    let s2 = step(s1, RawOp::Attr).unwrap();
    let p2 = p1.push(RawOp::Attr);
    assert(s2.strings.contains(card_strings().take(11)[1]));
    lemma_card_step(s0, p2, s2, RawOp::Text("class"), card_strings().take(11));
    let s3 = step(s2, RawOp::Text("class")).unwrap();
    let p3 = p2.push(RawOp::Text("class"));
    assert(holds_all(s3.strings, card_strings().take(11)));
    lemma_card_step(s0, p3, s3, RawOp::Text("badge"), card_strings().take(11));
    let s4 = step(s3, RawOp::Text("badge")).unwrap();
    let p4 = p3.push(RawOp::Text("badge"));
    assert(holds_all(s4.strings, card_strings().take(12)));
    assert(p4 =~= card_ops_6());
    s4
}

proof fn lemma_card_part_7(st: DriveState) -> (r: DriveState)
    requires
        state_inv(st),
        st.ops.len() == 29,
        st.stack.len() == 3,
        st.dyns.len() == 2,
        st.strings.len() <= 12,
        st.strings.flatten().len() <= 57,
        holds_all(st.strings, card_strings().take(12)),
    ensures
        run(st, card_ops_7()) == Some(r),
        state_inv(r),
        r.ops.len() == 31,
        r.stack.len() == 0,
        r.dyns.len() == 3,
        r.strings.len() <= 12,
        r.strings.flatten().len() <= 57,
        holds_all(r.strings, card_strings().take(12)),
{
    lemma_card_strings();
    let s0 = st;
    let p0 = Seq::<RawOp>::empty();
    lemma_card_step(s0, p0, s0, RawOp::TextNode, card_strings().take(12));
    let s1 = step(s0, RawOp::TextNode).unwrap();
    let p1 = p0.push(RawOp::TextNode);
    lemma_card_step(s0, p1, s1, RawOp::Dyn, card_strings().take(12));
    let s2 = step(s1, RawOp::Dyn).unwrap();
    let p2 = p1.push(RawOp::Dyn);
    lemma_card_step(s0, p2, s2, RawOp::Close, card_strings().take(12));
    let s3 = step(s2, RawOp::Close).unwrap();
    let p3 = p2.push(RawOp::Close);
    lemma_card_step(s0, p3, s3, RawOp::Close, card_strings().take(12));
    let s4 = step(s3, RawOp::Close).unwrap();
    let p4 = p3.push(RawOp::Close);
    lemma_card_step(s0, p4, s4, RawOp::Close, card_strings().take(12));
    let s5 = step(s4, RawOp::Close).unwrap();
    let p5 = p4.push(RawOp::Close);
    assert(p5 =~= card_ops_7());
    s5
}

/// Every card lowers into a template, with three dynamic paths, whatever values it
/// holds: its tape needs no more than `CAP` ops and, with its repeated strings
/// interned once, no more than `CAP` string bytes.
pub proof fn lemma_card_lowers()
    ensures
        drive_ok(Card::raw_spec()),
        drive_spec(Card::raw_spec()).dyns.len() == 3,
{
    assert(Card::raw_spec() =~= card_ops_0() + card_ops_1() + card_ops_2() + card_ops_3()
        + card_ops_4() + card_ops_5() + card_ops_6() + card_ops_7());
    let s0 = initial_state();
    assert(template_consistent(s0.ops, s0.strings, s0.dyns));
    assert(s0.strings.flatten().len() == 0);
    let s1 = lemma_card_part_0(s0);
    let s2 = lemma_card_part_1(s1);
    let s3 = lemma_card_part_2(s2);
    let s4 = lemma_card_part_3(s3);
    let s5 = lemma_card_part_4(s4);
    let s6 = lemma_card_part_5(s5);
    let s7 = lemma_card_part_6(s6);
    let s8 = lemma_card_part_7(s7);
    let prefix = card_ops_0();
    lemma_run_append(s0, prefix, card_ops_1());
    let prefix = prefix + card_ops_1();
    lemma_run_append(s0, prefix, card_ops_2());
    let prefix = prefix + card_ops_2();
    lemma_run_append(s0, prefix, card_ops_3());
    let prefix = prefix + card_ops_3();
    lemma_run_append(s0, prefix, card_ops_4());
    let prefix = prefix + card_ops_4();
    lemma_run_append(s0, prefix, card_ops_5());
    let prefix = prefix + card_ops_5();
    lemma_run_append(s0, prefix, card_ops_6());
    let prefix = prefix + card_ops_6();
    lemma_run_append(s0, prefix, card_ops_7());
    lemma_drive(Card::raw_spec());
}

} // verus!
