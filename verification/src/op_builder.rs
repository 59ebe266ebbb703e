//! Raw op tapes, flat templates, and `drive`, which lowers a tape into a template.
use vstd::prelude::*;
use vstd::string::StringSliceAdditionalSpecFns;

use crate::string_interner::{intern_fits, interned, lemma_interned, lemma_interned_room, StringInterner};
use crate::traits::TemplatePath;

verus! {

/// How many ops a tape or a template holds at most, and how many strings (and string
/// bytes) a template interns at most.
pub const CAP: usize = 64;

/// One op of a flat template.
#[derive(Clone, Copy, Debug, PartialEq, Eq, Structural)]
pub enum Op {
    /// Enter a new element
    Enter {
        /// How many ops to skip when exiting
        skip: u16,
        /// If the next op is the namespace
        ns: bool,
    },
    /// The next op is an attribute
    Attr,
    /// The next op is text
    Text,
    /// Static text value
    Static(u16),
    /// Dynamic value
    Dyn(u16),
}

/// One op that a view contributes before lowering.
#[derive(Clone, Copy, Debug)]
pub enum RawOp {
    Open(&'static str),
    Close,
    Attr,
    TextNode,
    Text(&'static str),
    Dyn,
}

/// A sequence of raw ops, at most `CAP` long.
#[derive(Clone, Debug)]
pub struct RawTape {
    ops: Vec<RawOp>,
}

impl View for RawTape {
    type V = Seq<RawOp>;

    closed spec fn view(&self) -> Seq<RawOp> {
        self.ops@
    }
}

impl RawTape {
    /// The empty tape.
    pub fn new() -> (t: Self)
        ensures
            t@ == Seq::<RawOp>::empty(),
    {
        Self { ops: Vec::new() }
    }

    /// This tape with `op` added at its end.
    pub fn push(self, op: RawOp) -> (t: Self)
        requires
            self@.len() < CAP,
        ensures
            t@ == self@.push(op),
    {
        let mut this = self;
        this.ops.push(op);
        this
    }

    /// This tape followed by the ops of `o`.
    pub fn concat(self, o: RawTape) -> (t: Self)
        requires
            self@.len() + o@.len() <= CAP,
        ensures
            t@ == self@ + o@,
    {
        let mut this = self;
        let mut i: usize = 0;
        while i < o.ops.len()
            invariant
                i <= o@.len(),
                this@ == self@ + o@.subrange(0, i as int),
                self@.len() + o@.len() <= CAP,
            decreases o@.len() - i,
        {
            this = this.push(o.ops[i]);
            i = i + 1;
            assert(this@ =~= self@ + o@.subrange(0, i as int));
        }
        assert(o@.subrange(0, o@.len() as int) =~= o@);
        this
    }
}

/// What a flat template holds: its ops, its interned strings (as bytes) and the path
/// of each dynamic value.
pub struct TemplateModel {
    pub ops: Seq<Op>,
    pub strings: Seq<Seq<u8>>,
    pub dyns: Seq<TemplatePath>,
}

/// A template lowered into one flat list of ops.
#[derive(Clone, Debug)]
pub struct FlatTemplate {
    pub ops: Vec<Op>,
    pub strings: StringInterner<CAP>,
    pub dyns: Vec<TemplatePath>,
}

impl FlatTemplate {
    pub open spec fn model(&self) -> TemplateModel {
        TemplateModel { ops: self.ops@, strings: self.strings@, dyns: self.dyns@ }
    }

    /// The template's invariant: a well-formed interner, and no more than `CAP` ops
    /// and dynamic values.
    pub open spec fn wf(&self) -> bool {
        &&& self.strings.wf()
        &&& self.ops@.len() <= CAP
        &&& self.dyns@.len() <= CAP
    }

    fn empty() -> (t: Self)
        ensures
            t.wf(),
            t.ops@ == Seq::<Op>::empty(),
            t.strings@ == Seq::<Seq<u8>>::empty(),
            t.dyns@ == Seq::<TemplatePath>::empty(),
    {
        Self { ops: Vec::new(), strings: StringInterner::new(), dyns: Vec::new() }
    }

    fn push(self, op: Op) -> (t: Self)
        requires
            self.wf(),
            self.ops@.len() < CAP,
        ensures
            t.wf(),
            t.ops@ == self.ops@.push(op),
            t.strings == self.strings,
            t.dyns@ == self.dyns@,
    {
        let mut this = self;
        this.ops.push(op);
        this
    }

    fn push_static(self, s: &str) -> (t: Self)
        requires
            self.wf(),
            self.ops@.len() < CAP,
            intern_fits(self.strings@, s.spec_bytes(), CAP as int),
        ensures
            t.wf(),
            t.ops@ == self.ops@.push(Op::Static(interned(self.strings@, s.spec_bytes()).1 as u16)),
            t.strings@ == interned(self.strings@, s.spec_bytes()).0,
            t.dyns@ == self.dyns@,
    {
        let mut this = self;
        let (strings, i) = this.strings.intern(s);
        this.strings = strings;
        this.push(Op::Static(i))
    }

    fn push_dyn(self, path: TemplatePath) -> (t: Self)
        requires
            self.wf(),
            self.ops@.len() < CAP,
            self.dyns@.len() < CAP,
        ensures
            t.wf(),
            t.ops@ == self.ops@.push(Op::Dyn(self.dyns@.len() as u16)),
            t.strings == self.strings,
            t.dyns@ == self.dyns@.push(path),
    {
        let mut this = self;
        let id = this.dyns.len() as u16;
        this.dyns.push(path);
        this.push(Op::Dyn(id))
    }
}

/// The path that the next dynamic value takes, if a raw op before it set one.
#[derive(Clone, Copy, Debug)]
pub enum PendingDynPath {
    Unset,
    Attr { path: TemplatePath, remaining_static_text: u8 },
    Node(TemplatePath),
}

/// The state of `drive` between two raw ops.
pub struct DriveState {
    pub ops: Seq<Op>,
    pub strings: Seq<Seq<u8>>,
    pub dyns: Seq<TemplatePath>,
    /// Where the `Enter` op of each open element stands, outermost first.
    pub stack: Seq<usize>,
    /// The path of each open element, outermost first.
    pub element_paths: Seq<TemplatePath>,
    /// The path that the next node at each depth takes, the depth of the open
    /// elements and one more.
    pub next_paths: Seq<TemplatePath>,
    pub pending: PendingDynPath,
}

pub open spec fn initial_state() -> DriveState {
    DriveState {
        ops: Seq::empty(),
        strings: Seq::empty(),
        dyns: Seq::empty(),
        stack: Seq::empty(),
        element_paths: Seq::empty(),
        next_paths: seq![TemplatePath::spec_empty().spec_next_child()],
        pending: PendingDynPath::Unset,
    }
}

/// The pending path after one static text: an attribute keeps it for its name and
/// drops it after its value; a text node drops it.
pub open spec fn after_text(p: PendingDynPath) -> PendingDynPath {
    match p {
        PendingDynPath::Attr { path, remaining_static_text } => if remaining_static_text > 1 {
            PendingDynPath::Attr { path, remaining_static_text: (remaining_static_text - 1) as u8 }
        } else {
            PendingDynPath::Unset
        },
        PendingDynPath::Node(_) => PendingDynPath::Unset,
        PendingDynPath::Unset => PendingDynPath::Unset,
    }
}

/// What one raw op does to the state; `None` where lowering cannot go on: a capacity
/// is exceeded, elements nest `CAP - 1` deep, a `Close` or an `Attr` comes with no open
/// element, or a `Dyn` comes with no pending path.
pub open spec fn step(st: DriveState, op: RawOp) -> Option<DriveState> {
    let sp = st.stack.len();
    match op {
        RawOp::Open(tag) => {
            if sp + 1 < CAP && st.ops.len() + 2 <= CAP && intern_fits(
                st.strings,
                tag.spec_bytes(),
                CAP as int,
            ) {
                let path = st.next_paths[sp as int];
                let (strings, i) = interned(st.strings, tag.spec_bytes());
                Some(
                    DriveState {
                        ops: st.ops.push(Op::Enter { skip: 0, ns: false }).push(
                            Op::Static(i as u16),
                        ),
                        strings,
                        dyns: st.dyns,
                        stack: st.stack.push(st.ops.len() as usize),
                        element_paths: st.element_paths.push(path),
                        next_paths: st.next_paths.update(sp as int, path.spec_next_sibling()).push(
                            path.spec_next_child(),
                        ),
                        pending: st.pending,
                    },
                )
            } else {
                None
            }
        },
        RawOp::Close => {
            if sp == 0 {
                None
            } else {
                let o = st.stack.last();
                let skip = (st.ops.len() - o) as u16;
                let ops = match st.ops[o as int] {
                    Op::Enter { skip: _, ns } => st.ops.update(o as int, Op::Enter { skip, ns }),
                    _ => st.ops,
                };
                Some(
                    DriveState {
                        ops,
                        strings: st.strings,
                        dyns: st.dyns,
                        stack: st.stack.drop_last(),
                        element_paths: st.element_paths.drop_last(),
                        next_paths: st.next_paths.drop_last(),
                        pending: st.pending,
                    },
                )
            }
        },
        RawOp::Attr => {
            if sp == 0 || st.ops.len() >= CAP {
                None
            } else {
                Some(
                    DriveState {
                        ops: st.ops.push(Op::Attr),
                        pending: PendingDynPath::Attr {
                            path: st.element_paths[sp - 1],
                            remaining_static_text: 2,
                        },
                        ..st
                    },
                )
            }
        },
        RawOp::TextNode => {
            if st.ops.len() >= CAP {
                None
            } else {
                let path = st.next_paths[sp as int];
                Some(
                    DriveState {
                        ops: st.ops.push(Op::Text),
                        next_paths: st.next_paths.update(sp as int, path.spec_next_sibling()),
                        pending: PendingDynPath::Node(path),
                        ..st
                    },
                )
            }
        },
        RawOp::Text(s) => {
            if st.ops.len() >= CAP || !intern_fits(st.strings, s.spec_bytes(), CAP as int) {
                None
            } else {
                let (strings, i) = interned(st.strings, s.spec_bytes());
                Some(
                    DriveState {
                        ops: st.ops.push(Op::Static(i as u16)),
                        strings,
                        pending: after_text(st.pending),
                        ..st
                    },
                )
            }
        },
        RawOp::Dyn => {
            if st.ops.len() >= CAP || st.dyns.len() >= CAP {
                None
            } else {
                match st.pending {
                    PendingDynPath::Unset => None,
                    PendingDynPath::Attr { path, remaining_static_text: _ } => Some(
                        DriveState {
                            ops: st.ops.push(Op::Dyn(st.dyns.len() as u16)),
                            dyns: st.dyns.push(path),
                            pending: PendingDynPath::Unset,
                            ..st
                        },
                    ),
                    PendingDynPath::Node(path) => Some(
                        DriveState {
                            ops: st.ops.push(Op::Dyn(st.dyns.len() as u16)),
                            dyns: st.dyns.push(path),
                            pending: PendingDynPath::Unset,
                            ..st
                        },
                    ),
                }
            }
        },
    }
}

/// The state after all of `raw`, op by op from `st`; `None` where a step fails.
pub open spec fn run(st: DriveState, raw: Seq<RawOp>) -> Option<DriveState>
    decreases raw.len(),
{
    if raw.len() == 0 {
        Some(st)
    } else {
        match step(st, raw[0]) {
            Some(next) => run(next, raw.drop_first()),
            None => None,
        }
    }
}

/// Whether `raw` lowers into a template.
pub open spec fn drive_ok(raw: Seq<RawOp>) -> bool {
    run(initial_state(), raw) is Some
}

/// The template that `raw` lowers into.
pub open spec fn drive_spec(raw: Seq<RawOp>) -> TemplateModel {
    let st = run(initial_state(), raw).unwrap();
    TemplateModel { ops: st.ops, strings: st.strings, dyns: st.dyns }
}

/// How many ops of `raw` satisfy `f`.
pub open spec fn count_where(raw: Seq<RawOp>, f: spec_fn(RawOp) -> bool) -> nat
    decreases raw.len(),
{
    if raw.len() == 0 {
        0
    } else {
        (if f(raw[0]) {
            1nat
        } else {
            0nat
        }) + count_where(raw.drop_first(), f)
    }
}

pub open spec fn is_dyn(op: RawOp) -> bool {
    op is Dyn
}

pub open spec fn is_open(op: RawOp) -> bool {
    op is Open
}

pub open spec fn is_close(op: RawOp) -> bool {
    op is Close
}

/// How many `Dyn` ops `raw` holds.
pub open spec fn count_dyn(raw: Seq<RawOp>) -> nat {
    count_where(raw, |op: RawOp| is_dyn(op))
}

/// How many `Open` ops `raw` holds.
pub open spec fn count_open(raw: Seq<RawOp>) -> nat {
    count_where(raw, |op: RawOp| is_open(op))
}

/// How many `Close` ops `raw` holds.
pub open spec fn count_close(raw: Seq<RawOp>) -> nat {
    count_where(raw, |op: RawOp| is_close(op))
}

/// Counting over two tapes one after the other adds up.
pub proof fn lemma_count_where_add(a: Seq<RawOp>, b: Seq<RawOp>, f: spec_fn(RawOp) -> bool)
    ensures
        count_where(a + b, f) == count_where(a, f) + count_where(b, f),
    decreases a.len(),
{
    if a.len() == 0 {
        assert(a + b =~= b);
    } else {
        assert((a + b).drop_first() =~= a.drop_first() + b);
        lemma_count_where_add(a.drop_first(), b, f);
    }
}

/// Whether `raw` closes as many elements as it opens.
pub open spec fn balanced(raw: Seq<RawOp>) -> bool {
    count_open(raw) == count_close(raw)
}

/// The counts of two tapes one after the other add up.
pub proof fn lemma_counts_add(a: Seq<RawOp>, b: Seq<RawOp>)
    ensures
        count_dyn(a + b) == count_dyn(a) + count_dyn(b),
        count_open(a + b) == count_open(a) + count_open(b),
        count_close(a + b) == count_close(a) + count_close(b),
{
    lemma_count_where_add(a, b, |op: RawOp| is_dyn(op));
    lemma_count_where_add(a, b, |op: RawOp| is_open(op));
    lemma_count_where_add(a, b, |op: RawOp| is_close(op));
}

/// The counts of a tape of one op.
pub proof fn lemma_counts_single(op: RawOp)
    ensures
        count_dyn(seq![op]) == if op is Dyn {
            1nat
        } else {
            0nat
        },
        count_open(seq![op]) == if op is Open {
            1nat
        } else {
            0nat
        },
        count_close(seq![op]) == if op is Close {
            1nat
        } else {
            0nat
        },
{
    assert(seq![op].drop_first() =~= Seq::<RawOp>::empty());
    reveal_with_fuel(count_where, 2);
}

/// Adding one op adds to the count of its kind.
pub proof fn lemma_counts_push(s: Seq<RawOp>, op: RawOp)
    ensures
        count_dyn(s.push(op)) == count_dyn(s) + if op is Dyn {
            1nat
        } else {
            0nat
        },
        count_open(s.push(op)) == count_open(s) + if op is Open {
            1nat
        } else {
            0nat
        },
        count_close(s.push(op)) == count_close(s) + if op is Close {
            1nat
        } else {
            0nat
        },
{
    assert(s.push(op) =~= s + seq![op]);
    lemma_counts_add(s, seq![op]);
    lemma_counts_single(op);
}

/// The attribute flag after `op`: set by an `Attr` op, cleared by a `TextNode` op, kept
/// by the others.
pub open spec fn attr_after(attr: bool, op: RawOp) -> bool {
    if op is Attr {
        true
    } else if op is TextNode {
        false
    } else {
        attr
    }
}

/// For each `Dyn` op of `raw`, in order, whether the nearest `Attr` or `TextNode` op
/// before it is an `Attr`; `attr` stands for the ops before `raw`.
pub open spec fn dyn_kinds_from(attr: bool, raw: Seq<RawOp>) -> Seq<bool>
    decreases raw.len(),
{
    if raw.len() == 0 {
        Seq::empty()
    } else {
        (if raw[0] is Dyn {
            seq![attr]
        } else {
            Seq::empty()
        }) + dyn_kinds_from(attr_after(attr, raw[0]), raw.drop_first())
    }
}

/// For each `Dyn` op of `raw`, in order, whether it fills an attribute: whether the
/// nearest `Attr` or `TextNode` op before it is an `Attr`.
pub open spec fn dyn_kinds(raw: Seq<RawOp>) -> Seq<bool> {
    dyn_kinds_from(false, raw)
}

/// The attribute flag after all of `raw`.
pub open spec fn attr_after_all(attr: bool, raw: Seq<RawOp>) -> bool
    decreases raw.len(),
{
    if raw.len() == 0 {
        attr
    } else {
        attr_after_all(attr_after(attr, raw[0]), raw.drop_first())
    }
}

/// Whether every `Dyn` op of `raw` has an `Attr` or `TextNode` op before it; `seen`
/// stands for such an op before `raw`.
pub open spec fn dyns_led_from(seen: bool, raw: Seq<RawOp>) -> bool
    decreases raw.len(),
{
    if raw.len() == 0 {
        true
    } else {
        &&& (raw[0] is Dyn ==> seen)
        &&& dyns_led_from(seen || raw[0] is Attr || raw[0] is TextNode, raw.drop_first())
    }
}

/// Whether every `Dyn` op of `raw` has an `Attr` or `TextNode` op before it in `raw`.
pub open spec fn dyns_led(raw: Seq<RawOp>) -> bool {
    dyns_led_from(false, raw)
}

/// Whether `raw`, after `seen`, holds an `Attr` or `TextNode` op.
pub open spec fn seen_after_all(seen: bool, raw: Seq<RawOp>) -> bool
    decreases raw.len(),
{
    if raw.len() == 0 {
        seen
    } else {
        seen_after_all(seen || raw[0] is Attr || raw[0] is TextNode, raw.drop_first())
    }
}

proof fn lemma_kinds_append(attr: bool, seen: bool, a: Seq<RawOp>, b: Seq<RawOp>)
    ensures
        dyn_kinds_from(attr, a + b) == dyn_kinds_from(attr, a) + dyn_kinds_from(
            attr_after_all(attr, a),
            b,
        ),
        attr_after_all(attr, a + b) == attr_after_all(attr_after_all(attr, a), b),
        dyns_led_from(seen, a + b) == (dyns_led_from(seen, a) && dyns_led_from(
            seen_after_all(seen, a),
            b,
        )),
        seen_after_all(seen, a + b) == seen_after_all(seen_after_all(seen, a), b),
    decreases a.len(),
{
    if a.len() == 0 {
        assert(a + b =~= b);
    } else {
        assert((a + b).drop_first() =~= a.drop_first() + b);
        assert((a + b)[0] == a[0]);
        lemma_kinds_append(
            attr_after(attr, a[0]),
            seen || a[0] is Attr || a[0] is TextNode,
            a.drop_first(),
            b,
        );
        let head = if a[0] is Dyn {
            seq![attr]
        } else {
            Seq::empty()
        };
        let ka = dyn_kinds_from(attr_after(attr, a[0]), a.drop_first());
        let kb = dyn_kinds_from(attr_after_all(attr_after(attr, a[0]), a.drop_first()), b);
        assert(head + (ka + kb) =~= (head + ka) + kb);
    }
}

proof fn lemma_kinds_one(attr: bool, seen: bool, op: RawOp)
    ensures
        dyn_kinds_from(attr, seq![op]) == if op is Dyn {
            seq![attr]
        } else {
            Seq::<bool>::empty()
        },
        attr_after_all(attr, seq![op]) == attr_after(attr, op),
        dyns_led_from(seen, seq![op]) == (op is Dyn ==> seen),
        seen_after_all(seen, seq![op]) == (seen || op is Attr || op is TextNode),
{
    let rest = seq![op].drop_first();
    assert(rest =~= Seq::<RawOp>::empty());
    assert(seq![op][0] == op);
    let next = attr_after(attr, op);
    assert(dyn_kinds_from(next, rest) =~= Seq::<bool>::empty());
    assert(attr_after_all(next, rest) == next);
    let seen_next = seen || op is Attr || op is TextNode;
    assert(dyns_led_from(seen_next, rest));
    assert(seen_after_all(seen_next, rest) == seen_next);
    let head = if op is Dyn {
        seq![attr]
    } else {
        Seq::<bool>::empty()
    };
    assert(head + Seq::<bool>::empty() =~= head);
}

proof fn lemma_led_mono(s1: bool, s2: bool, raw: Seq<RawOp>)
    requires
        s1 ==> s2,
        dyns_led_from(s1, raw),
    ensures
        dyns_led_from(s2, raw),
    decreases raw.len(),
{
    if raw.len() > 0 {
        lemma_led_mono(
            s1 || raw[0] is Attr || raw[0] is TextNode,
            s2 || raw[0] is Attr || raw[0] is TextNode,
            raw.drop_first(),
        );
    }
}

proof fn lemma_kinds_led(x: bool, y: bool, seen: bool, raw: Seq<RawOp>)
    requires
        dyns_led_from(seen, raw),
        seen ==> x == y,
    ensures
        dyn_kinds_from(x, raw) == dyn_kinds_from(y, raw),
    decreases raw.len(),
{
    if raw.len() > 0 {
        lemma_kinds_led(
            attr_after(x, raw[0]),
            attr_after(y, raw[0]),
            seen || raw[0] is Attr || raw[0] is TextNode,
            raw.drop_first(),
        );
    }
}

/// Two tapes whose `Dyn` ops are each led by an `Attr` or `TextNode` op make one
/// such tape, and the kinds of its `Dyn` ops are those of the first and then those of
/// the second.
pub proof fn lemma_kinds_add(a: Seq<RawOp>, b: Seq<RawOp>)
    requires
        dyns_led(a),
        dyns_led(b),
    ensures
        dyns_led(a + b),
        dyn_kinds(a + b) == dyn_kinds(a) + dyn_kinds(b),
{
    lemma_kinds_append(false, false, a, b);
    lemma_led_mono(false, seen_after_all(false, a), b);
    lemma_kinds_led(attr_after_all(false, a), false, false, b);
}

/// A tape of one op: a lone `Dyn` op has nothing before it.
pub proof fn lemma_kinds_single(op: RawOp)
    ensures
        dyns_led(seq![op]) == !(op is Dyn),
        dyn_kinds(seq![op]) == if op is Dyn {
            seq![false]
        } else {
            Seq::<bool>::empty()
        },
{
    lemma_kinds_one(false, false, op);
}

/// Adding one op to a tape: a `Dyn` op adds the kind of the nearest `Attr` or
/// `TextNode` op before it, and must have one.
pub proof fn lemma_kinds_push(s: Seq<RawOp>, op: RawOp)
    ensures
        dyn_kinds(s.push(op)) == dyn_kinds(s) + if op is Dyn {
            seq![attr_after_all(false, s)]
        } else {
            Seq::<bool>::empty()
        },
        attr_after_all(false, s.push(op)) == attr_after(attr_after_all(false, s), op),
        dyns_led(s.push(op)) == (dyns_led(s) && (op is Dyn ==> seen_after_all(false, s))),
        seen_after_all(false, s.push(op)) == (seen_after_all(false, s) || op is Attr
            || op is TextNode),
{
    assert(s.push(op) =~= s + seq![op]);
    lemma_kinds_append(false, false, s, seq![op]);
    lemma_kinds_one(attr_after_all(false, s), seen_after_all(false, s), op);
}

/// Every `Static` op names an interned string, and the `Dyn` ops carry the ids
/// 0, 1, 2, ... in the order they come, each naming a recorded path.
pub open spec fn template_consistent(ops: Seq<Op>, strings: Seq<Seq<u8>>, dyns: Seq<TemplatePath>) -> bool {
    &&& forall|j: int|
        0 <= j < ops.len() ==> match #[trigger] ops[j] {
            Op::Static(i) => i < strings.len(),
            Op::Dyn(d) => d < dyns.len() && d == dyn_ops_before(ops, j),
            _ => true,
        }
    &&& dyn_ops_before(ops, ops.len() as int) == dyns.len()
}

/// How many `Dyn` ops stand before index `j` of `ops`.
pub open spec fn dyn_ops_before(ops: Seq<Op>, j: int) -> nat
    decreases j,
{
    if j <= 0 {
        0
    } else {
        dyn_ops_before(ops, j - 1) + if ops[j - 1] is Dyn {
            1nat
        } else {
            0nat
        }
    }
}

/// Whether position `o` of the stack of open elements holds `o`.
pub open spec fn on_stack(stack: Seq<usize>, o: int) -> bool {
    exists|i: int| 0 <= i < stack.len() && stack[i] == o
}

/// Whether `ops[o]` is the `Enter` op of an element that was closed.
pub open spec fn closed_enter(ops: Seq<Op>, stack: Seq<usize>, o: int) -> bool {
    &&& 0 <= o < ops.len()
    &&& ops[o] is Enter
    &&& !on_stack(stack, o)
}

/// Where the ops of the element that `ops[o]` enters end.
pub open spec fn span_end(ops: Seq<Op>, o: int) -> int {
    o + ops[o]->skip
}

/// The skips of closed elements: each spans at least the element's `Enter` and tag
/// ops and stays within the ops; two spans nest or are disjoint; and no span reaches
/// past the start of an element that is still open. Open elements have their
/// `Enter` ops, with skip 0, at increasing positions.
pub open spec fn skips_nest(ops: Seq<Op>, stack: Seq<usize>) -> bool {
    &&& forall|i: int, j: int| 0 <= i < j < stack.len() ==> stack[i] < stack[j]
    &&& forall|i: int|
        0 <= i < stack.len() ==> #[trigger] stack[i] + 2 <= ops.len() && ops[stack[i] as int] is Enter
            && ops[stack[i] as int]->skip == 0
    &&& forall|o: int|
        #[trigger] closed_enter(ops, stack, o) ==> 2 <= ops[o]->skip && span_end(ops, o) <= ops.len()
    &&& forall|o1: int, o2: int|
        #[trigger] closed_enter(ops, stack, o1) && #[trigger] closed_enter(ops, stack, o2) && o1 < o2
            < span_end(ops, o1) ==> span_end(ops, o2) <= span_end(ops, o1)
    &&& forall|o: int, i: int|
        #[trigger] closed_enter(ops, stack, o) && 0 <= i < stack.len() && o < #[trigger] stack[i]
            ==> span_end(ops, o) <= stack[i]
}

/// What every step keeps of a state.
pub open spec fn state_inv(st: DriveState) -> bool {
    &&& st.element_paths.len() == st.stack.len()
    &&& st.next_paths.len() == st.stack.len() + 1
    &&& forall|j: int| 0 <= j < st.stack.len() ==> #[trigger] st.stack[j] < st.ops.len()
    &&& st.strings.no_duplicates()
    &&& st.ops.len() <= CAP
    &&& template_consistent(st.ops, st.strings, st.dyns)
    &&& skips_nest(st.ops, st.stack)
}

proof fn lemma_dyn_ops_before_prefix(a: Seq<Op>, b: Seq<Op>, j: int)
    requires
        0 <= j <= a.len(),
        a.len() <= b.len(),
        forall|i: int| 0 <= i < a.len() ==> a[i] == b[i],
    ensures
        dyn_ops_before(a, j) == dyn_ops_before(b, j),
    decreases j,
{
    if j > 0 {
        lemma_dyn_ops_before_prefix(a, b, j - 1);
    }
}

proof fn lemma_dyn_ops_before_update(a: Seq<Op>, o: int, skip: u16, ns: bool, j: int)
    requires
        0 <= o < a.len(),
        a[o] is Enter,
        0 <= j <= a.len(),
    ensures
        dyn_ops_before(a.update(o, Op::Enter { skip, ns }), j) == dyn_ops_before(a, j),
    decreases j,
{
    if j > 0 {
        lemma_dyn_ops_before_update(a, o, skip, ns, j - 1);
    }
}

proof fn lemma_step_skips(st: DriveState, op: RawOp)
    requires
        state_inv(st),
        step(st, op) is Some,
    ensures
        skips_nest(step(st, op).unwrap().ops, step(st, op).unwrap().stack),
{
    let next = step(st, op).unwrap();
    let ops = st.ops;
    let stack = st.stack;
    let len = ops.len() as int;
    match op {
        RawOp::Open(tag) => {
            let i = interned(st.strings, tag.spec_bytes()).1;
            let nops = next.ops;
            let nstack = next.stack;
            assert(nstack == stack.push(len as usize));
            assert forall|o: int| 0 <= o < len implies nops[o] == ops[o] by {}
            assert forall|o: int| 0 <= o < len && !on_stack(stack, o) implies !on_stack(nstack, o) by {
                if on_stack(nstack, o) {
                    let k = choose|k: int| 0 <= k < nstack.len() && nstack[k] == o;
                    if k < stack.len() {
                        assert(stack[k] == o);
                    }
                }
            }
            assert forall|o: int| #[trigger] closed_enter(nops, nstack, o) implies closed_enter(ops, stack, o) by {
                if o >= len {
                    if o == len {
                        assert(nstack[stack.len() as int] == o);
                    } else {
                        assert(nops[o] == Op::Static(i as u16));
                    }
                }
                if on_stack(stack, o) {
                    let k = choose|k: int| 0 <= k < stack.len() && stack[k] == o;
                    assert(nstack[k] == o);
                }
            }
            assert forall|a: int, b: int| 0 <= a < b < nstack.len() implies nstack[a] < nstack[b] by {
                if b == stack.len() {
                    assert(stack[a] < len);
                }
            }
            assert forall|k: int| 0 <= k < nstack.len() implies #[trigger] nstack[k] + 2 <= nops.len()
                && nops[nstack[k] as int] is Enter && nops[nstack[k] as int]->skip == 0 by {
                if k < stack.len() {
                    assert(stack[k] + 2 <= len);
                }
            }
            assert forall|o: int, k: int|
                #[trigger] closed_enter(nops, nstack, o) && 0 <= k < nstack.len() && o
                    < #[trigger] nstack[k] implies span_end(nops, o) <= nstack[k] by {
                assert(closed_enter(ops, stack, o));
                if k < stack.len() {
                    assert(stack[k] == nstack[k]);
                }
            }
        },
        RawOp::Close => {
            let top = stack.len() - 1;
            let o_top = stack[top] as int;
            assert(stack[top] + 2 <= len);
            let skip = (len - o_top) as u16;
            let ns = ops[o_top]->ns;
            let nops = next.ops;
            let nstack = next.stack;
            assert(nops == ops.update(o_top, Op::Enter { skip, ns }));
            assert(nstack == stack.drop_last());
            assert(nops[o_top]->skip == len - o_top);
            assert forall|o: int| 0 <= o < len && o != o_top implies nops[o] == ops[o] by {}
            assert(!on_stack(nstack, o_top)) by {
                if on_stack(nstack, o_top) {
                    let k = choose|k: int| 0 <= k < nstack.len() && nstack[k] == o_top;
                    assert(stack[k] < stack[top]);
                }
            }
            assert forall|o: int| o != o_top && #[trigger] closed_enter(nops, nstack, o) implies closed_enter(
                ops,
                stack,
                o,
            ) by {
                if on_stack(stack, o) {
                    let k = choose|k: int| 0 <= k < stack.len() && stack[k] == o;
                    if k == top {
                    } else {
                        assert(nstack[k] == o);
                    }
                }
            }
            assert forall|o: int| #[trigger] closed_enter(nops, nstack, o) implies 2 <= nops[o]->skip
                && span_end(nops, o) <= nops.len() by {
                if o != o_top {
                    assert(closed_enter(ops, stack, o));
                }
            }
            assert forall|o1: int, o2: int|
                #[trigger] closed_enter(nops, nstack, o1) && #[trigger] closed_enter(nops, nstack, o2)
                    && o1 < o2 < span_end(nops, o1) implies span_end(nops, o2) <= span_end(nops, o1) by {
                if o1 == o_top {
                    assert(closed_enter(ops, stack, o2));
                } else if o2 == o_top {
                    assert(closed_enter(ops, stack, o1));
                    assert(span_end(ops, o1) <= stack[top]);
                } else {
                    assert(closed_enter(ops, stack, o1));
                    assert(closed_enter(ops, stack, o2));
                }
            }
            assert forall|o: int, k: int|
                #[trigger] closed_enter(nops, nstack, o) && 0 <= k < nstack.len() && o
                    < #[trigger] nstack[k] implies span_end(nops, o) <= nstack[k] by {
                assert(nstack[k] == stack[k]);
                assert(stack[k] < stack[top]);
                if o != o_top {
                    assert(closed_enter(ops, stack, o));
                }
            }
            assert forall|k: int| 0 <= k < nstack.len() implies #[trigger] nstack[k] + 2 <= nops.len()
                && nops[nstack[k] as int] is Enter && nops[nstack[k] as int]->skip == 0 by {
                assert(nstack[k] == stack[k]);
                assert(stack[k] < stack[top]);
                assert(stack[k] + 2 <= len);
            }
        },
        _ => {
            let nops = next.ops;
            assert(next.stack == stack);
            assert(nops.len() == len + 1);
            assert forall|o: int| 0 <= o < len implies nops[o] == ops[o] by {}
            assert(!(nops[len] is Enter));
            assert forall|o: int| #[trigger] closed_enter(nops, stack, o) implies closed_enter(ops, stack, o) by {}
            assert forall|o: int, k: int|
                #[trigger] closed_enter(nops, stack, o) && 0 <= k < stack.len() && o
                    < #[trigger] stack[k] implies span_end(nops, o) <= stack[k] by {
                assert(closed_enter(ops, stack, o));
            }
        },
    }
}

/// One step keeps the state invariant, and adds one op net of the open elements:
/// the op count less the depth grows by exactly one, and the `Dyn` ops add paths.
pub proof fn lemma_step(st: DriveState, op: RawOp)
    requires
        state_inv(st),
        step(st, op) is Some,
    ensures
        state_inv(step(st, op).unwrap()),
        step(st, op).unwrap().ops.len() + st.stack.len() == st.ops.len() + step(st, op).unwrap().stack.len() + 1,
        step(st, op).unwrap().dyns.len() == st.dyns.len() + (if op is Dyn { 1nat } else { 0nat }),
        step(st, op).unwrap().stack.len() + (if op is Close { 1nat } else { 0nat }) == st.stack.len() + (if op is Open { 1nat } else { 0nat }),
{
    let next = step(st, op).unwrap();
    lemma_step_skips(st, op);
    match op {
        RawOp::Open(tag) => {
            lemma_interned(st.strings, tag.spec_bytes());
            let i = interned(st.strings, tag.spec_bytes()).1;
            let ops1 = st.ops.push(Op::Enter { skip: 0, ns: false });
            assert(next.ops == ops1.push(Op::Static(i as u16)));
            lemma_dyn_ops_before_prefix(st.ops, next.ops, st.ops.len() as int);
            lemma_dyn_ops_before_prefix(st.ops, ops1, st.ops.len() as int);
            lemma_dyn_ops_before_prefix(ops1, next.ops, ops1.len() as int);
            assert forall|j: int| 0 <= j < st.ops.len() implies dyn_ops_before(next.ops, j) == dyn_ops_before(st.ops, j) by {
                lemma_dyn_ops_before_prefix(st.ops, next.ops, j);
            }
            assert(dyn_ops_before(next.ops, next.ops.len() as int) == dyn_ops_before(st.ops, st.ops.len() as int));
        },
        RawOp::Close => {
            let o = st.stack.last();
            assert(st.stack[st.stack.len() - 1] < st.ops.len());
            if st.ops[o as int] is Enter {
                let skip = (st.ops.len() - o) as u16;
                let ns = st.ops[o as int]->ns;
                assert forall|j: int| 0 <= j <= st.ops.len() implies dyn_ops_before(next.ops, j) == dyn_ops_before(st.ops, j) by {
                    lemma_dyn_ops_before_update(st.ops, o as int, skip, ns, j);
                }
                assert forall|j: int| 0 <= j < next.stack.len() implies #[trigger] next.stack[j] < next.ops.len() by {
                    assert(next.stack[j] == st.stack[j]);
                }
            } else {
                assert forall|j: int| 0 <= j < next.stack.len() implies #[trigger] next.stack[j] < next.ops.len() by {
                    assert(next.stack[j] == st.stack[j]);
                }
            }
        },
        RawOp::Text(s) => {
            lemma_interned(st.strings, s.spec_bytes());
            assert forall|j: int| 0 <= j <= st.ops.len() implies dyn_ops_before(next.ops, j) == dyn_ops_before(st.ops, j) by {
                lemma_dyn_ops_before_prefix(st.ops, next.ops, j);
            }
        },
        _ => {
            assert forall|j: int| 0 <= j <= st.ops.len() implies dyn_ops_before(next.ops, j) == dyn_ops_before(st.ops, j) by {
                lemma_dyn_ops_before_prefix(st.ops, next.ops, j);
            }
        },
    }
}

/// A whole run keeps the state invariant and adds up the steps.
pub proof fn lemma_run(st: DriveState, raw: Seq<RawOp>)
    requires
        state_inv(st),
        run(st, raw) is Some,
    ensures
        state_inv(run(st, raw).unwrap()),
        run(st, raw).unwrap().ops.len() + st.stack.len() == st.ops.len() + run(
            st,
            raw,
        ).unwrap().stack.len() + raw.len(),
        run(st, raw).unwrap().dyns.len() == st.dyns.len() + count_dyn(raw),
        run(st, raw).unwrap().stack.len() + count_close(raw) == st.stack.len()
            + count_open(raw),
    decreases raw.len(),
{
    if raw.len() > 0 {
        lemma_step(st, raw[0]);
        lemma_run(step(st, raw[0]).unwrap(), raw.drop_first());
    }
}

/// Running two tapes one after the other is running the first and then the second.
pub proof fn lemma_run_append(st: DriveState, a: Seq<RawOp>, b: Seq<RawOp>)
    ensures
        run(st, a + b) == match run(st, a) {
            Some(m) => run(m, b),
            None => None,
        },
    decreases a.len(),
{
    if a.len() == 0 {
        assert(a + b =~= b);
    } else {
        assert((a + b).drop_first() =~= a.drop_first() + b);
        assert((a + b)[0] == a[0]);
        match step(st, a[0]) {
            Some(n) => lemma_run_append(n, a.drop_first(), b),
            None => {},
        }
    }
}

/// Running a tape and one more op is running the tape and then stepping.
pub proof fn lemma_run_push(st: DriveState, raw: Seq<RawOp>, op: RawOp)
    ensures
        run(st, raw.push(op)) == match run(st, raw) {
            Some(m) => step(m, op),
            None => None,
        },
    decreases raw.len(),
{
    if raw.len() == 0 {
        assert(raw.push(op).drop_first() =~= Seq::<RawOp>::empty());
        assert(raw.push(op)[0] == op);
        match step(st, op) {
            Some(n) => {
                assert(run(n, Seq::<RawOp>::empty()) == Some(n));
            },
            None => {},
        }
    } else {
        assert(raw.push(op).drop_first() =~= raw.drop_first().push(op));
        assert(raw.push(op)[0] == raw[0]);
        match step(st, raw[0]) {
            Some(n) => lemma_run_push(n, raw.drop_first(), op),
            None => {},
        }
    }
}

/// What one op does to the sizes of a state, where it steps: the counts of
/// `lemma_step`, and the strings, which gain at most the op's string and its bytes
/// and keep every string they had.
pub proof fn lemma_advance(st: DriveState, op: RawOp)
    requires
        state_inv(st),
        step(st, op) is Some,
    ensures
        state_inv(step(st, op).unwrap()),
        step(st, op).unwrap().ops.len() + st.stack.len() == st.ops.len() + step(st, op).unwrap().stack.len() + 1,
        step(st, op).unwrap().dyns.len() == st.dyns.len() + (if op is Dyn { 1nat } else { 0nat }),
        step(st, op).unwrap().stack.len() + (if op is Close { 1nat } else { 0nat }) == st.stack.len() + (if op is Open { 1nat } else { 0nat }),
        step(st, op).unwrap().strings.len() <= st.strings.len() + 1,
        forall|c: Seq<u8>| st.strings.contains(c) ==> #[trigger] step(st, op).unwrap().strings.contains(c),
        match op {
            RawOp::Open(s) => {
                &&& step(st, op).unwrap().strings.contains(s.spec_bytes())
                &&& step(st, op).unwrap().strings.flatten().len() <= st.strings.flatten().len() + s.spec_bytes().len()
                &&& st.strings.contains(s.spec_bytes()) ==> step(st, op).unwrap().strings == st.strings
                &&& step(st, op).unwrap().pending == st.pending
            },
            RawOp::Text(s) => {
                &&& step(st, op).unwrap().strings.contains(s.spec_bytes())
                &&& step(st, op).unwrap().strings.flatten().len() <= st.strings.flatten().len() + s.spec_bytes().len()
                &&& st.strings.contains(s.spec_bytes()) ==> step(st, op).unwrap().strings == st.strings
                &&& step(st, op).unwrap().pending == after_text(st.pending)
            },
            _ => step(st, op).unwrap().strings == st.strings,
        },
        op is Close ==> step(st, op).unwrap().pending == st.pending,
        op is Attr ==> step(st, op).unwrap().pending matches PendingDynPath::Attr { remaining_static_text: 2, .. },
        op is TextNode ==> step(st, op).unwrap().pending is Node,
        op is Dyn ==> step(st, op).unwrap().pending is Unset,
{
    lemma_step(st, op);
    match op {
        RawOp::Open(s) => lemma_interned_room(st.strings, s.spec_bytes()),
        RawOp::Text(s) => lemma_interned_room(st.strings, s.spec_bytes()),
        _ => {},
    }
}

/// What lowering gives, for every tape that lowers: the template is consistent (each
/// `Static` op names one of its strings, which are distinct; the `Dyn` ops carry the
/// ids 0, 1, 2, ... in order); it holds one path per `Dyn` raw op; and it holds one op
/// per raw op and one more per element that the tape leaves open, `CAP` at most. Where
/// the tape closes every element it opens, every `Enter` op's skip spans its
/// element's ops (at least its `Enter` and tag ops, within the template), and the
/// spans of two elements nest or are disjoint.
pub proof fn lemma_drive(raw: Seq<RawOp>)
    requires
        drive_ok(raw),
    ensures
        drive_spec(raw).strings.no_duplicates(),
        template_consistent(drive_spec(raw).ops, drive_spec(raw).strings, drive_spec(raw).dyns),
        drive_spec(raw).dyns.len() == count_dyn(raw),
        drive_spec(raw).ops.len() + count_close(raw) == raw.len()
            + count_open(raw),
        raw.len() <= drive_spec(raw).ops.len() <= CAP,
        count_open(raw) == count_close(raw) ==> skips_nest(
            drive_spec(raw).ops,
            Seq::<usize>::empty(),
        ),
{
    let st = initial_state();
    assert(template_consistent(st.ops, st.strings, st.dyns));
    lemma_run(st, raw);
    let f = run(st, raw).unwrap();
    if count_open(raw) == count_close(raw) {
        assert(f.stack =~= Seq::<usize>::empty());
    }
}

/// The state that `drive`'s locals stand for.
pub open spec fn state_of(
    t: FlatTemplate,
    stack: Seq<usize>,
    element_paths: Seq<TemplatePath>,
    next_paths: Seq<TemplatePath>,
    pending: PendingDynPath,
) -> DriveState {
    DriveState {
        ops: t.ops@,
        strings: t.strings@,
        dyns: t.dyns@,
        stack,
        element_paths,
        next_paths,
        pending,
    }
}

/// Lowers the raw ops of `raw` into one flat template.
pub fn drive(raw: RawTape) -> (t: FlatTemplate)
    requires
        drive_ok(raw@),
    ensures
        t.wf(),
        t.model() == drive_spec(raw@),
{
    let mut t = FlatTemplate::empty();
    let mut stack: Vec<usize> = Vec::new();
    let mut element_paths: Vec<TemplatePath> = Vec::new();
    let mut next_paths: Vec<TemplatePath> = Vec::new();
    next_paths.push(TemplatePath::empty().next_child());
    let mut pending = PendingDynPath::Unset;
    let mut k: usize = 0;
    assert(raw@.skip(0) =~= raw@);
    assert(state_of(t, stack@, element_paths@, next_paths@, pending) == initial_state());
    while k < raw.ops.len()
        invariant
            k <= raw@.len(),
            t.wf(),
            element_paths@.len() == stack@.len(),
            next_paths@.len() == stack@.len() + 1,
            stack@.len() < CAP,
            forall|j: int| 0 <= j < stack@.len() ==> #[trigger] stack@[j] < t.ops@.len(),
            run(initial_state(), raw@) is Some,
            run(initial_state(), raw@) == run(
                state_of(t, stack@, element_paths@, next_paths@, pending),
                raw@.skip(k as int),
            ),
        decreases raw@.len() - k,
    {
        let ghost st = state_of(t, stack@, element_paths@, next_paths@, pending);
        let ghost rest = raw@.skip(k as int);
        assert(rest[0] == raw@[k as int]);
        assert(rest.drop_first() =~= raw@.skip(k + 1));
        let ghost next = step(st, raw@[k as int]).unwrap();
        let sp = stack.len();
        match raw.ops[k] {
            RawOp::Open(tag) => {
                let path = next_paths[sp];
                next_paths.set(sp, path.next_sibling());
                element_paths.push(path);
                next_paths.push(path.next_child());
                stack.push(t.ops.len());
                t = t.push(Op::Enter { skip: 0, ns: false });
                t = t.push_static(tag);
                assert(state_of(t, stack@, element_paths@, next_paths@, pending) == next);
            },
            RawOp::Close => {
                let o = stack[sp - 1];
                let skip = (t.ops.len() - o) as u16;
                if let Op::Enter { ns, .. } = t.ops[o] {
                    t.ops.set(o, Op::Enter { skip, ns });
                }
                stack.pop();
                element_paths.pop();
                next_paths.pop();
                assert(stack@ =~= st.stack.drop_last());
                assert(element_paths@ =~= st.element_paths.drop_last());
                assert(next_paths@ =~= st.next_paths.drop_last());
                assert(state_of(t, stack@, element_paths@, next_paths@, pending) == next);
            },
            RawOp::Attr => {
                pending = PendingDynPath::Attr {
                    path: element_paths[sp - 1],
                    remaining_static_text: 2,
                };
                t = t.push(Op::Attr);
                assert(state_of(t, stack@, element_paths@, next_paths@, pending) == next);
            },
            RawOp::TextNode => {
                let path = next_paths[sp];
                next_paths.set(sp, path.next_sibling());
                pending = PendingDynPath::Node(path);
                t = t.push(Op::Text);
                assert(state_of(t, stack@, element_paths@, next_paths@, pending) == next);
            },
            RawOp::Text(s) => {
                pending = match pending {
                    PendingDynPath::Attr { path, remaining_static_text } => {
                        if remaining_static_text > 1 {
                            PendingDynPath::Attr {
                                path,
                                remaining_static_text: remaining_static_text - 1,
                            }
                        } else {
                            PendingDynPath::Unset
                        }
                    },
                    PendingDynPath::Node(_) => PendingDynPath::Unset,
                    PendingDynPath::Unset => PendingDynPath::Unset,
                };
                t = t.push_static(s);
                assert(state_of(t, stack@, element_paths@, next_paths@, pending) == next);
            },
            RawOp::Dyn => {
                let path = match pending {
                    PendingDynPath::Attr { path, .. } => path,
                    PendingDynPath::Node(path) => path,
                    PendingDynPath::Unset => {
                        assert(false);
                        TemplatePath::empty()
                    },
                };
                pending = PendingDynPath::Unset;
                t = t.push_dyn(path);
                assert(state_of(t, stack@, element_paths@, next_paths@, pending) == next);
            },
        }
        k = k + 1;
    }
    assert(raw@.skip(k as int) =~= Seq::<RawOp>::empty());
    t
}

} // verus!
