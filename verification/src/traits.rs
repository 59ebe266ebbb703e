//! Template paths and the traits that every view implements.
use vstd::prelude::*;
use vstd::view::View as _;

use crate::debug_text::{comma_joined, lemma_comma_joined_push};
use crate::op_builder::{
    balanced, count_dyn, drive, drive_ok, drive_spec, dyn_kinds, dyns_led, lemma_counts_add,
    lemma_drive, lemma_kinds_add, skips_nest, CAP, FlatTemplate, RawTape,
};

verus! {

/// One cursor move through a static template.
#[derive(Debug, Clone, Copy, PartialEq, Eq, Structural)]
pub enum TemplatePathSegment {
    /// Move to the next sibling.
    Sibling,
    /// Move to the first child.
    Child,
}

/// A compact path from a template root to a dynamic node or dynamic attribute.
///
/// Paths are encoded as a sequence of cursor moves through the static template:
/// `Child` means "move to the first child" and `Sibling` means "move to the
/// next sibling". Each move is stored as one bit in `path`, so this
/// representation can encode up to 128 traversal operations. The latest move is
/// the lowest bit.
#[derive(Debug, Clone, Copy, PartialEq, Eq, Structural)]
pub struct TemplatePath {
    path: u128,
}

/// The segment that the lowest bit of `path` stands for.
pub open spec fn segment_of(path: u128) -> TemplatePathSegment {
    if path & 1 == 1 {
        TemplatePathSegment::Child
    } else {
        TemplatePathSegment::Sibling
    }
}

/// The moves of the path whose bits are `path`, latest first: one per bit, from the
/// lowest up to the highest set bit, `Child` for a one and `Sibling` for a zero.
pub open spec fn segments(path: u128) -> Seq<TemplatePathSegment>
    decreases path,
{
    if path == 0 {
        Seq::empty()
    } else {
        proof {
            assert(path > 0 ==> (path >> 1) < path) by (bit_vector);
        }
        seq![segment_of(path)] + segments(path >> 1)
    }
}

/// Listing the moves gives what `pop_front` returns, call after call, until the path
/// is empty.
pub proof fn lemma_segments_popped(path: u128)
    ensures
        segments(path) == popped(path, segments(path).len()),
        after_pops(path, segments(path).len()) == 0,
        segments(path).len() == 0 <==> path == 0,
    decreases path,
{
    if path != 0 {
        assert(path > 0 ==> (path >> 1) < path) by (bit_vector);
        lemma_segments_popped(path >> 1u128);
        let rest = segments(path >> 1u128);
        assert(segments(path).len() == rest.len() + 1);
        assert(((rest.len() + 1) as nat - 1) as nat == rest.len());
    }
}

impl TemplatePath {
    /// The bits of the path.
    pub closed spec fn spec_bits(self) -> u128 {
        self.path
    }

    /// The path with no moves.
    pub closed spec fn spec_empty() -> TemplatePath {
        TemplatePath { path: 0 }
    }

    /// This path followed by a move to the first child.
    pub closed spec fn spec_next_child(self) -> TemplatePath {
        TemplatePath { path: (self.path << 1u128) | 1u128 }
    }

    /// This path followed by a move to the next sibling.
    pub closed spec fn spec_next_sibling(self) -> TemplatePath {
        TemplatePath { path: (self.path << 1u128) | 0u128 }
    }

    /// The path with no moves.
    pub fn empty() -> (p: Self)
        ensures
            p.spec_bits() == 0,
            p == Self::spec_empty(),
    {
        Self { path: 0 }
    }

    /// This path followed by a move to the first child.
    pub fn next_child(self) -> (p: Self)
        ensures
            p.spec_bits() == (self.spec_bits() << 1u128) | 1u128,
            p == self.spec_next_child(),
    {
        let path = self.path << 1 | 1;
        Self { path }
    }

    /// This path followed by a move to the next sibling.
    pub fn next_sibling(self) -> (p: Self)
        ensures
            p.spec_bits() == (self.spec_bits() << 1u128) | 0u128,
            p == self.spec_next_sibling(),
    {
        let path = self.path << 1 | 0;
        Self { path }
    }

    /// This path without its latest move.
    pub fn parent(self) -> (p: Self)
        ensures
            p.spec_bits() == self.spec_bits() >> 1u128,
    {
        let path = self.path >> 1;
        Self { path }
    }

    /// The bits of the path.
    pub fn bits(&self) -> (b: u128)
        ensures
            b == self.spec_bits(),
    {
        self.path
    }

    /// Removes the latest move from the path and returns it.
    pub fn pop_front(&mut self) -> (segment: TemplatePathSegment)
        ensures
            segment == segment_of(old(self).spec_bits()),
            final(self).spec_bits() == old(self).spec_bits() >> 1u128,
    {
        let segment = if self.path & 1 == 1 {
            TemplatePathSegment::Child
        } else {
            TemplatePathSegment::Sibling
        };
        self.path = self.path >> 1;
        segment
    }

    /// The path's moves, latest first: the segments that `pop_front` returns, call
    /// after call, until the path is empty. The empty path has none.
    pub fn iter(&self) -> (out: Vec<TemplatePathSegment>)
        ensures
            out@ == segments(self.spec_bits()),
            out@ == popped(self.spec_bits(), out@.len()),
            after_pops(self.spec_bits(), out@.len()) == 0,
    {
        proof {
            lemma_segments_popped(self.spec_bits());
        }
        let mut out: Vec<TemplatePathSegment> = Vec::new();
        let mut p = self.path;
        while p != 0
            invariant
                out@ + segments(p) == segments(self.spec_bits()),
            decreases p,
        {
            let segment = if p & 1 == 1 {
                TemplatePathSegment::Child
            } else {
                TemplatePathSegment::Sibling
            };
            out.push(segment);
            assert(p > 0 ==> (p >> 1) < p) by (bit_vector);
            assert(out@ + segments(p >> 1) =~= segments(self.spec_bits()));
            p = p >> 1;
        }
        assert(out@ =~= segments(self.spec_bits()));
        out
    }

    /// The text that `{:?}` writes for this path: its segments as `iter` yields them.
    pub fn debug_string(&self) -> (r: String)
        ensures
            r@ == path_debug(self.spec_bits()),
    {
        let segs = self.iter();
        let ghost items = segs@.map_values(|g: TemplatePathSegment| segment_debug(g));
        let mut out = String::from_str("TemplatePath { path: [");
        let ghost head = out@;
        let mut i: usize = 0;
        while i < segs.len()
            invariant
                i <= segs@.len(),
                items == segs@.map_values(|g: TemplatePathSegment| segment_debug(g)),
                head == "TemplatePath { path: ["@,
                out@ == head + comma_joined(items.take(i as int)),
            decreases segs@.len() - i,
        {
            if i > 0 {
                out.append(", ");
            }
            let name = match segs[i] {
                TemplatePathSegment::Child => "Child",
                TemplatePathSegment::Sibling => "Sibling",
            };
            out.append(name);
            proof {
                assert(items[i as int] == name@);
                assert(items.take(i as int + 1) =~= items.take(i as int).push(items[i as int]));
                lemma_comma_joined_push(items.take(i as int), items[i as int]);
                let done = comma_joined(items.take(i as int));
                if i > 0 {
                    assert(out@ =~= head + (done + ", "@ + name@));
                } else {
                    assert(done =~= Seq::<char>::empty());
                    assert(out@ =~= head + name@);
                }
            }
            i = i + 1;
        }
        out.append("] }");
        assert(items.take(i as int) =~= items);
        assert(out@ =~= path_debug(self.spec_bits()));
        out
    }
}

/// What `{:?}` writes for a segment: the name of its variant.
pub open spec fn segment_debug(s: TemplatePathSegment) -> Seq<char> {
    match s {
        TemplatePathSegment::Child => "Child"@,
        TemplatePathSegment::Sibling => "Sibling"@,
    }
}

/// The text that `{:?}` writes for the path with bits `path`: its segments, latest
/// move first, in a list after the name.
pub open spec fn path_debug(path: u128) -> Seq<char> {
    "TemplatePath { path: ["@ + comma_joined(
        segments(path).map_values(|g: TemplatePathSegment| segment_debug(g)),
    ) + "] }"@
}

/// Removing the latest move undoes adding one, while the path has room for it
/// (its top bit is clear): `parent` and `pop_front` give back the path, `pop_front`
/// returns the move, and `iter` yields the move and then the path's segments.
pub proof fn lemma_parent_undoes_next(p: TemplatePath)
    requires
        p.spec_bits() < 0x8000_0000_0000_0000_0000_0000_0000_0000u128,
    ensures
        p.spec_next_child().spec_bits() >> 1u128 == p.spec_bits(),
        p.spec_next_sibling().spec_bits() >> 1u128 == p.spec_bits(),
        segment_of(p.spec_next_child().spec_bits()) == TemplatePathSegment::Child,
        segment_of(p.spec_next_sibling().spec_bits()) == TemplatePathSegment::Sibling,
        segments(p.spec_next_child().spec_bits()) == seq![TemplatePathSegment::Child] + segments(
            p.spec_bits(),
        ),
        p.spec_bits() != 0 ==> segments(p.spec_next_sibling().spec_bits()) == seq![
            TemplatePathSegment::Sibling,
        ] + segments(p.spec_bits()),
{
    let b = p.spec_bits();
    assert(p.spec_next_child().spec_bits() == (b << 1u128) | 1u128);
    assert(p.spec_next_sibling().spec_bits() == (b << 1u128) | 0u128);
    assert(((b << 1u128) | 1u128) >> 1u128 == b) by (bit_vector)
        requires
            b < 0x8000_0000_0000_0000_0000_0000_0000_0000u128,
    ;
    assert(((b << 1u128) | 0u128) >> 1u128 == b) by (bit_vector)
        requires
            b < 0x8000_0000_0000_0000_0000_0000_0000_0000u128,
    ;
    assert(((b << 1u128) | 1u128) & 1u128 == 1u128) by (bit_vector);
    assert(((b << 1u128) | 0u128) & 1u128 == 0u128) by (bit_vector);
    assert((b << 1u128) | 1u128 != 0u128) by (bit_vector);
    assert(b != 0u128 ==> (b << 1u128) | 0u128 != 0u128) by (bit_vector)
        requires
            b < 0x8000_0000_0000_0000_0000_0000_0000_0000u128,
    ;
}

/// The path that `moves` make from the empty path, first move first.
pub open spec fn path_of(moves: Seq<TemplatePathSegment>) -> TemplatePath
    decreases moves.len(),
{
    if moves.len() == 0 {
        TemplatePath::spec_empty()
    } else {
        let p = path_of(moves.drop_last());
        match moves.last() {
            TemplatePathSegment::Child => p.spec_next_child(),
            TemplatePathSegment::Sibling => p.spec_next_sibling(),
        }
    }
}

/// The segments that `n` calls of `pop_front` return, one after the other, from a
/// path with bits `bits`.
pub open spec fn popped(bits: u128, n: nat) -> Seq<TemplatePathSegment>
    decreases n,
{
    if n == 0 {
        Seq::empty()
    } else {
        seq![segment_of(bits)] + popped(bits >> 1u128, (n - 1) as nat)
    }
}

/// The bits that are left after `n` calls of `pop_front` on a path with bits `bits`.
pub open spec fn after_pops(bits: u128, n: nat) -> u128
    decreases n,
{
    if n == 0 {
        bits
    } else {
        after_pops(bits >> 1u128, (n - 1) as nat)
    }
}

/// Two to the power `n`.
pub open spec fn two_to(n: nat) -> int
    decreases n,
{
    if n == 0 {
        1
    } else {
        2 * two_to((n - 1) as nat)
    }
}

proof fn lemma_two_to_mono(a: nat, b: nat)
    requires
        a <= b,
    ensures
        1 <= two_to(a) <= two_to(b),
    decreases b,
{
    if b == 0 {
    } else if a == b {
        lemma_two_to_mono((a - 1) as nat, (b - 1) as nat);
    } else {
        lemma_two_to_mono(a, (b - 1) as nat);
    }
}

proof fn lemma_two_to_add(a: nat, b: nat)
    ensures
        two_to(a + b) == two_to(a) * two_to(b),
    decreases b,
{
    if b > 0 {
        lemma_two_to_add(a, (b - 1) as nat);
        assert(two_to(a + b) == 2 * two_to((a + b - 1) as nat));
        let x = two_to(a);
        let y = two_to((b - 1) as nat);
        assert(2 * (x * y) == x * (2 * y)) by (nonlinear_arith);
    }
}

proof fn lemma_two_to_127()
    ensures
        two_to(127) == 0x8000_0000_0000_0000_0000_0000_0000_0000int,
{
    assert(two_to(1) == 2) by {
        reveal_with_fuel(two_to, 2);
    }
    lemma_two_to_add(1, 1);
    assert(two_to(2) == 0x4int);
    lemma_two_to_add(2, 2);
    assert(two_to(4) == 0x10int);
    lemma_two_to_add(4, 4);
    assert(two_to(8) == 0x100int);
    lemma_two_to_add(8, 8);
    assert(two_to(16) == 0x10000int);
    lemma_two_to_add(16, 16);
    assert(two_to(32) == 0x100000000int);
    lemma_two_to_add(32, 32);
    assert(two_to(64) == 0x10000000000000000int);
    lemma_two_to_add(64, 32);
    assert(two_to(96) == 0x1000000000000000000000000int);
    lemma_two_to_add(96, 16);
    assert(two_to(112) == 0x10000000000000000000000000000int);
    lemma_two_to_add(112, 8);
    assert(two_to(120) == 0x1000000000000000000000000000000int);
    lemma_two_to_add(120, 4);
    assert(two_to(124) == 0x10000000000000000000000000000000int);
    lemma_two_to_add(124, 2);
    assert(two_to(126) == 0x40000000000000000000000000000000int);
    lemma_two_to_add(126, 1);
    assert(two_to(127) == 0x80000000000000000000000000000000int);
}

/// Up to 128 moves are stored without loss: the bits of a path of `n <= 128` moves
/// stay below two to the `n`, and `n` calls of `pop_front` give back the moves,
/// latest first, and leave the empty path.
pub proof fn lemma_path_round_trip(moves: Seq<TemplatePathSegment>)
    requires
        moves.len() <= 128,
    ensures
        (path_of(moves).spec_bits() as int) < two_to(moves.len()),
        popped(path_of(moves).spec_bits(), moves.len()) == moves.reverse(),
        after_pops(path_of(moves).spec_bits(), moves.len()) == 0,
    decreases moves.len(),
{
    if moves.len() == 0 {
        assert(moves.reverse() =~= Seq::<TemplatePathSegment>::empty());
    } else {
        let n = moves.len();
        let rest = moves.drop_last();
        lemma_path_round_trip(rest);
        let q = path_of(rest).spec_bits();
        let b = path_of(moves).spec_bits();
        lemma_two_to_mono((n - 1) as nat, 127);
        lemma_two_to_127();
        assert(q < 0x8000_0000_0000_0000_0000_0000_0000_0000u128);
        match moves.last() {
            TemplatePathSegment::Child => {
                assert(b == (q << 1u128) | 1u128);
                assert((q << 1u128) | 1u128 == 2 * q + 1 && ((q << 1u128) | 1u128) >> 1u128 == q
                    && ((q << 1u128) | 1u128) & 1u128 == 1u128) by (bit_vector)
                    requires
                        q < 0x8000_0000_0000_0000_0000_0000_0000_0000u128,
                ;
            },
            TemplatePathSegment::Sibling => {
                assert(b == (q << 1u128) | 0u128);
                assert((q << 1u128) | 0u128 == 2 * q && ((q << 1u128) | 0u128) >> 1u128 == q && ((q
                    << 1u128) | 0u128) & 1u128 == 0u128) by (bit_vector)
                    requires
                        q < 0x8000_0000_0000_0000_0000_0000_0000_0000u128,
                ;
            },
        }
        assert(segment_of(b) == moves.last());
        assert(b >> 1u128 == q);
        assert(popped(b, n) == seq![moves.last()] + popped(q, (n - 1) as nat));
        assert(seq![moves.last()] + rest.reverse() =~= moves.reverse());
        assert(after_pops(b, n) == after_pops(q, (n - 1) as nat));
    }
}

/// Everything a composed view contributes to the template: its raw ops.
pub trait Raw {
    /// The raw ops of this view.
    spec fn raw_spec() -> Seq<crate::op_builder::RawOp>;

    /// The tape of this view's raw ops.
    fn raw() -> (tape: RawTape)
        requires
            Self::raw_spec().len() <= CAP,
        ensures
            tape@ == Self::raw_spec(),
    ;

    /// The tape closes every element it opens.
    proof fn lemma_balanced()
        ensures
            balanced(Self::raw_spec()),
    ;
}

impl Raw for () {
    open spec fn raw_spec() -> Seq<crate::op_builder::RawOp> {
        Seq::empty()
    }

    fn raw() -> (tape: RawTape) {
        RawTape::new()
    }

    proof fn lemma_balanced() {
    }
}

impl<A: Raw> Raw for (A,) {
    open spec fn raw_spec() -> Seq<crate::op_builder::RawOp> {
        A::raw_spec()
    }

    fn raw() -> (tape: RawTape) {
        RawTape::new().concat(A::raw())
    }

    proof fn lemma_balanced() {
        A::lemma_balanced();
    }
}

impl<A: Raw, B: Raw> Raw for (A, B) {
    open spec fn raw_spec() -> Seq<crate::op_builder::RawOp> {
        A::raw_spec() + B::raw_spec()
    }

    fn raw() -> (tape: RawTape) {
        RawTape::new().concat(A::raw()).concat(B::raw())
    }

    proof fn lemma_balanced() {
        A::lemma_balanced();
        B::lemma_balanced();
        let s = A::raw_spec();
        lemma_counts_add(s, B::raw_spec());
    }
}

impl<A: Raw, B: Raw, C: Raw> Raw for (A, B, C) {
    open spec fn raw_spec() -> Seq<crate::op_builder::RawOp> {
        A::raw_spec() + B::raw_spec() + C::raw_spec()
    }

    fn raw() -> (tape: RawTape) {
        RawTape::new().concat(A::raw()).concat(B::raw()).concat(C::raw())
    }

    proof fn lemma_balanced() {
        A::lemma_balanced();
        B::lemma_balanced();
        C::lemma_balanced();
        let s = A::raw_spec();
        lemma_counts_add(s, B::raw_spec());
        let s = s + B::raw_spec();
        lemma_counts_add(s, C::raw_spec());
    }
}

impl<A: Raw, B: Raw, C: Raw, D: Raw> Raw for (A, B, C, D) {
    open spec fn raw_spec() -> Seq<crate::op_builder::RawOp> {
        A::raw_spec() + B::raw_spec() + C::raw_spec() + D::raw_spec()
    }

    fn raw() -> (tape: RawTape) {
        RawTape::new().concat(A::raw()).concat(B::raw()).concat(C::raw()).concat(D::raw())
    }

    proof fn lemma_balanced() {
        A::lemma_balanced();
        B::lemma_balanced();
        C::lemma_balanced();
        D::lemma_balanced();
        let s = A::raw_spec();
        lemma_counts_add(s, B::raw_spec());
        let s = s + B::raw_spec();
        lemma_counts_add(s, C::raw_spec());
        let s = s + C::raw_spec();
        lemma_counts_add(s, D::raw_spec());
    }
}

impl<A: Raw, B: Raw, C: Raw, D: Raw, E: Raw> Raw for (A, B, C, D, E) {
    open spec fn raw_spec() -> Seq<crate::op_builder::RawOp> {
        A::raw_spec() + B::raw_spec() + C::raw_spec() + D::raw_spec() + E::raw_spec()
    }

    fn raw() -> (tape: RawTape) {
        RawTape::new().concat(A::raw()).concat(B::raw()).concat(C::raw()).concat(D::raw())
            .concat(E::raw())
    }

    proof fn lemma_balanced() {
        A::lemma_balanced();
        B::lemma_balanced();
        C::lemma_balanced();
        D::lemma_balanced();
        E::lemma_balanced();
        let s = A::raw_spec();
        lemma_counts_add(s, B::raw_spec());
        let s = s + B::raw_spec();
        lemma_counts_add(s, C::raw_spec());
        let s = s + C::raw_spec();
        lemma_counts_add(s, D::raw_spec());
        let s = s + D::raw_spec();
        lemma_counts_add(s, E::raw_spec());
    }
}

impl<A: Raw, B: Raw, C: Raw, D: Raw, E: Raw, F: Raw> Raw for (A, B, C, D, E, F) {
    open spec fn raw_spec() -> Seq<crate::op_builder::RawOp> {
        A::raw_spec() + B::raw_spec() + C::raw_spec() + D::raw_spec() + E::raw_spec()
            + F::raw_spec()
    }

    fn raw() -> (tape: RawTape) {
        RawTape::new().concat(A::raw()).concat(B::raw()).concat(C::raw()).concat(D::raw())
            .concat(E::raw()).concat(F::raw())
    }

    proof fn lemma_balanced() {
        A::lemma_balanced();
        B::lemma_balanced();
        C::lemma_balanced();
        D::lemma_balanced();
        E::lemma_balanced();
        F::lemma_balanced();
        let s = A::raw_spec();
        lemma_counts_add(s, B::raw_spec());
        let s = s + B::raw_spec();
        lemma_counts_add(s, C::raw_spec());
        let s = s + C::raw_spec();
        lemma_counts_add(s, D::raw_spec());
        let s = s + D::raw_spec();
        lemma_counts_add(s, E::raw_spec());
        let s = s + E::raw_spec();
        lemma_counts_add(s, F::raw_spec());
    }
}

impl<A: Raw, B: Raw, C: Raw, D: Raw, E: Raw, F: Raw, G: Raw> Raw for (A, B, C, D, E, F, G) {
    open spec fn raw_spec() -> Seq<crate::op_builder::RawOp> {
        A::raw_spec() + B::raw_spec() + C::raw_spec() + D::raw_spec() + E::raw_spec()
            + F::raw_spec() + G::raw_spec()
    }

    fn raw() -> (tape: RawTape) {
        RawTape::new().concat(A::raw()).concat(B::raw()).concat(C::raw()).concat(D::raw())
            .concat(E::raw()).concat(F::raw()).concat(G::raw())
    }

    proof fn lemma_balanced() {
        A::lemma_balanced();
        B::lemma_balanced();
        C::lemma_balanced();
        D::lemma_balanced();
        E::lemma_balanced();
        F::lemma_balanced();
        G::lemma_balanced();
        let s = A::raw_spec();
        lemma_counts_add(s, B::raw_spec());
        let s = s + B::raw_spec();
        lemma_counts_add(s, C::raw_spec());
        let s = s + C::raw_spec();
        lemma_counts_add(s, D::raw_spec());
        let s = s + D::raw_spec();
        lemma_counts_add(s, E::raw_spec());
        let s = s + E::raw_spec();
        lemma_counts_add(s, F::raw_spec());
        let s = s + F::raw_spec();
        lemma_counts_add(s, G::raw_spec());
    }
}

impl<
    A: Raw,
    B: Raw,
    C: Raw,
    D: Raw,
    E: Raw,
    F: Raw,
    G: Raw,
    H: Raw,
> Raw for (A, B, C, D, E, F, G, H) {
    open spec fn raw_spec() -> Seq<crate::op_builder::RawOp> {
        A::raw_spec() + B::raw_spec() + C::raw_spec() + D::raw_spec() + E::raw_spec()
            + F::raw_spec() + G::raw_spec() + H::raw_spec()
    }

    fn raw() -> (tape: RawTape) {
        RawTape::new().concat(A::raw()).concat(B::raw()).concat(C::raw()).concat(D::raw())
            .concat(E::raw()).concat(F::raw()).concat(G::raw()).concat(H::raw())
    }

    proof fn lemma_balanced() {
        A::lemma_balanced();
        B::lemma_balanced();
        C::lemma_balanced();
        D::lemma_balanced();
        E::lemma_balanced();
        F::lemma_balanced();
        G::lemma_balanced();
        H::lemma_balanced();
        let s = A::raw_spec();
        lemma_counts_add(s, B::raw_spec());
        let s = s + B::raw_spec();
        lemma_counts_add(s, C::raw_spec());
        let s = s + C::raw_spec();
        lemma_counts_add(s, D::raw_spec());
        let s = s + D::raw_spec();
        lemma_counts_add(s, E::raw_spec());
        let s = s + E::raw_spec();
        lemma_counts_add(s, F::raw_spec());
        let s = s + F::raw_spec();
        lemma_counts_add(s, G::raw_spec());
        let s = s + G::raw_spec();
        lemma_counts_add(s, H::raw_spec());
    }
}

impl<
    A: Raw,
    B: Raw,
    C: Raw,
    D: Raw,
    E: Raw,
    F: Raw,
    G: Raw,
    H: Raw,
    I: Raw,
> Raw for (A, B, C, D, E, F, G, H, I) {
    open spec fn raw_spec() -> Seq<crate::op_builder::RawOp> {
        A::raw_spec() + B::raw_spec() + C::raw_spec() + D::raw_spec() + E::raw_spec()
            + F::raw_spec() + G::raw_spec() + H::raw_spec() + I::raw_spec()
    }

    fn raw() -> (tape: RawTape) {
        RawTape::new().concat(A::raw()).concat(B::raw()).concat(C::raw()).concat(D::raw())
            .concat(E::raw()).concat(F::raw()).concat(G::raw()).concat(H::raw())
            .concat(I::raw())
    }

    proof fn lemma_balanced() {
        A::lemma_balanced();
        B::lemma_balanced();
        C::lemma_balanced();
        D::lemma_balanced();
        E::lemma_balanced();
        F::lemma_balanced();
        G::lemma_balanced();
        H::lemma_balanced();
        I::lemma_balanced();
        let s = A::raw_spec();
        lemma_counts_add(s, B::raw_spec());
        let s = s + B::raw_spec();
        lemma_counts_add(s, C::raw_spec());
        let s = s + C::raw_spec();
        lemma_counts_add(s, D::raw_spec());
        let s = s + D::raw_spec();
        lemma_counts_add(s, E::raw_spec());
        let s = s + E::raw_spec();
        lemma_counts_add(s, F::raw_spec());
        let s = s + F::raw_spec();
        lemma_counts_add(s, G::raw_spec());
        let s = s + G::raw_spec();
        lemma_counts_add(s, H::raw_spec());
        let s = s + H::raw_spec();
        lemma_counts_add(s, I::raw_spec());
    }
}

impl<
    A: Raw,
    B: Raw,
    C: Raw,
    D: Raw,
    E: Raw,
    F: Raw,
    G: Raw,
    H: Raw,
    I: Raw,
    J: Raw,
> Raw for (A, B, C, D, E, F, G, H, I, J) {
    open spec fn raw_spec() -> Seq<crate::op_builder::RawOp> {
        A::raw_spec() + B::raw_spec() + C::raw_spec() + D::raw_spec() + E::raw_spec()
            + F::raw_spec() + G::raw_spec() + H::raw_spec() + I::raw_spec() + J::raw_spec()
    }

    fn raw() -> (tape: RawTape) {
        RawTape::new().concat(A::raw()).concat(B::raw()).concat(C::raw()).concat(D::raw())
            .concat(E::raw()).concat(F::raw()).concat(G::raw()).concat(H::raw())
            .concat(I::raw()).concat(J::raw())
    }

    proof fn lemma_balanced() {
        A::lemma_balanced();
        B::lemma_balanced();
        C::lemma_balanced();
        D::lemma_balanced();
        E::lemma_balanced();
        F::lemma_balanced();
        G::lemma_balanced();
        H::lemma_balanced();
        I::lemma_balanced();
        J::lemma_balanced();
        let s = A::raw_spec();
        lemma_counts_add(s, B::raw_spec());
        let s = s + B::raw_spec();
        lemma_counts_add(s, C::raw_spec());
        let s = s + C::raw_spec();
        lemma_counts_add(s, D::raw_spec());
        let s = s + D::raw_spec();
        lemma_counts_add(s, E::raw_spec());
        let s = s + E::raw_spec();
        lemma_counts_add(s, F::raw_spec());
        let s = s + F::raw_spec();
        lemma_counts_add(s, G::raw_spec());
        let s = s + G::raw_spec();
        lemma_counts_add(s, H::raw_spec());
        let s = s + H::raw_spec();
        lemma_counts_add(s, I::raw_spec());
        let s = s + I::raw_spec();
        lemma_counts_add(s, J::raw_spec());
    }
}

impl<
    A: Raw,
    B: Raw,
    C: Raw,
    D: Raw,
    E: Raw,
    F: Raw,
    G: Raw,
    H: Raw,
    I: Raw,
    J: Raw,
    K: Raw,
> Raw for (A, B, C, D, E, F, G, H, I, J, K) {
    open spec fn raw_spec() -> Seq<crate::op_builder::RawOp> {
        A::raw_spec() + B::raw_spec() + C::raw_spec() + D::raw_spec() + E::raw_spec()
            + F::raw_spec() + G::raw_spec() + H::raw_spec() + I::raw_spec() + J::raw_spec()
            + K::raw_spec()
    }

    fn raw() -> (tape: RawTape) {
        RawTape::new().concat(A::raw()).concat(B::raw()).concat(C::raw()).concat(D::raw())
            .concat(E::raw()).concat(F::raw()).concat(G::raw()).concat(H::raw())
            .concat(I::raw()).concat(J::raw()).concat(K::raw())
    }

    proof fn lemma_balanced() {
        A::lemma_balanced();
        B::lemma_balanced();
        C::lemma_balanced();
        D::lemma_balanced();
        E::lemma_balanced();
        F::lemma_balanced();
        G::lemma_balanced();
        H::lemma_balanced();
        I::lemma_balanced();
        J::lemma_balanced();
        K::lemma_balanced();
        let s = A::raw_spec();
        lemma_counts_add(s, B::raw_spec());
        let s = s + B::raw_spec();
        lemma_counts_add(s, C::raw_spec());
        let s = s + C::raw_spec();
        lemma_counts_add(s, D::raw_spec());
        let s = s + D::raw_spec();
        lemma_counts_add(s, E::raw_spec());
        let s = s + E::raw_spec();
        lemma_counts_add(s, F::raw_spec());
        let s = s + F::raw_spec();
        lemma_counts_add(s, G::raw_spec());
        let s = s + G::raw_spec();
        lemma_counts_add(s, H::raw_spec());
        let s = s + H::raw_spec();
        lemma_counts_add(s, I::raw_spec());
        let s = s + I::raw_spec();
        lemma_counts_add(s, J::raw_spec());
        let s = s + J::raw_spec();
        lemma_counts_add(s, K::raw_spec());
    }
}

impl<
    A: Raw,
    B: Raw,
    C: Raw,
    D: Raw,
    E: Raw,
    F: Raw,
    G: Raw,
    H: Raw,
    I: Raw,
    J: Raw,
    K: Raw,
    L: Raw,
> Raw for (A, B, C, D, E, F, G, H, I, J, K, L) {
    open spec fn raw_spec() -> Seq<crate::op_builder::RawOp> {
        A::raw_spec() + B::raw_spec() + C::raw_spec() + D::raw_spec() + E::raw_spec()
            + F::raw_spec() + G::raw_spec() + H::raw_spec() + I::raw_spec() + J::raw_spec()
            + K::raw_spec() + L::raw_spec()
    }

    fn raw() -> (tape: RawTape) {
        RawTape::new().concat(A::raw()).concat(B::raw()).concat(C::raw()).concat(D::raw())
            .concat(E::raw()).concat(F::raw()).concat(G::raw()).concat(H::raw())
            .concat(I::raw()).concat(J::raw()).concat(K::raw()).concat(L::raw())
    }

    proof fn lemma_balanced() {
        A::lemma_balanced();
        B::lemma_balanced();
        C::lemma_balanced();
        D::lemma_balanced();
        E::lemma_balanced();
        F::lemma_balanced();
        G::lemma_balanced();
        H::lemma_balanced();
        I::lemma_balanced();
        J::lemma_balanced();
        K::lemma_balanced();
        L::lemma_balanced();
        let s = A::raw_spec();
        lemma_counts_add(s, B::raw_spec());
        let s = s + B::raw_spec();
        lemma_counts_add(s, C::raw_spec());
        let s = s + C::raw_spec();
        lemma_counts_add(s, D::raw_spec());
        let s = s + D::raw_spec();
        lemma_counts_add(s, E::raw_spec());
        let s = s + E::raw_spec();
        lemma_counts_add(s, F::raw_spec());
        let s = s + F::raw_spec();
        lemma_counts_add(s, G::raw_spec());
        let s = s + G::raw_spec();
        lemma_counts_add(s, H::raw_spec());
        let s = s + H::raw_spec();
        lemma_counts_add(s, I::raw_spec());
        let s = s + I::raw_spec();
        lemma_counts_add(s, J::raw_spec());
        let s = s + J::raw_spec();
        lemma_counts_add(s, K::raw_spec());
        let s = s + K::raw_spec();
        lemma_counts_add(s, L::raw_spec());
    }
}

impl<
    A: Raw,
    B: Raw,
    C: Raw,
    D: Raw,
    E: Raw,
    F: Raw,
    G: Raw,
    H: Raw,
    I: Raw,
    J: Raw,
    K: Raw,
    L: Raw,
    M: Raw,
> Raw for (A, B, C, D, E, F, G, H, I, J, K, L, M) {
    open spec fn raw_spec() -> Seq<crate::op_builder::RawOp> {
        A::raw_spec() + B::raw_spec() + C::raw_spec() + D::raw_spec() + E::raw_spec()
            + F::raw_spec() + G::raw_spec() + H::raw_spec() + I::raw_spec() + J::raw_spec()
            + K::raw_spec() + L::raw_spec() + M::raw_spec()
    }

    fn raw() -> (tape: RawTape) {
        RawTape::new().concat(A::raw()).concat(B::raw()).concat(C::raw()).concat(D::raw())
            .concat(E::raw()).concat(F::raw()).concat(G::raw()).concat(H::raw())
            .concat(I::raw()).concat(J::raw()).concat(K::raw()).concat(L::raw())
            .concat(M::raw())
    }

    proof fn lemma_balanced() {
        A::lemma_balanced();
        B::lemma_balanced();
        C::lemma_balanced();
        D::lemma_balanced();
        E::lemma_balanced();
        F::lemma_balanced();
        G::lemma_balanced();
        H::lemma_balanced();
        I::lemma_balanced();
        J::lemma_balanced();
        K::lemma_balanced();
        L::lemma_balanced();
        M::lemma_balanced();
        let s = A::raw_spec();
        lemma_counts_add(s, B::raw_spec());
        let s = s + B::raw_spec();
        lemma_counts_add(s, C::raw_spec());
        let s = s + C::raw_spec();
        lemma_counts_add(s, D::raw_spec());
        let s = s + D::raw_spec();
        lemma_counts_add(s, E::raw_spec());
        let s = s + E::raw_spec();
        lemma_counts_add(s, F::raw_spec());
        let s = s + F::raw_spec();
        lemma_counts_add(s, G::raw_spec());
        let s = s + G::raw_spec();
        lemma_counts_add(s, H::raw_spec());
        let s = s + H::raw_spec();
        lemma_counts_add(s, I::raw_spec());
        let s = s + I::raw_spec();
        lemma_counts_add(s, J::raw_spec());
        let s = s + J::raw_spec();
        lemma_counts_add(s, K::raw_spec());
        let s = s + K::raw_spec();
        lemma_counts_add(s, L::raw_spec());
        let s = s + L::raw_spec();
        lemma_counts_add(s, M::raw_spec());
    }
}

impl<
    A: Raw,
    B: Raw,
    C: Raw,
    D: Raw,
    E: Raw,
    F: Raw,
    G: Raw,
    H: Raw,
    I: Raw,
    J: Raw,
    K: Raw,
    L: Raw,
    M: Raw,
    N: Raw,
> Raw for (A, B, C, D, E, F, G, H, I, J, K, L, M, N) {
    open spec fn raw_spec() -> Seq<crate::op_builder::RawOp> {
        A::raw_spec() + B::raw_spec() + C::raw_spec() + D::raw_spec() + E::raw_spec()
            + F::raw_spec() + G::raw_spec() + H::raw_spec() + I::raw_spec() + J::raw_spec()
            + K::raw_spec() + L::raw_spec() + M::raw_spec() + N::raw_spec()
    }

    fn raw() -> (tape: RawTape) {
        RawTape::new().concat(A::raw()).concat(B::raw()).concat(C::raw()).concat(D::raw())
            .concat(E::raw()).concat(F::raw()).concat(G::raw()).concat(H::raw())
            .concat(I::raw()).concat(J::raw()).concat(K::raw()).concat(L::raw())
            .concat(M::raw()).concat(N::raw())
    }

    proof fn lemma_balanced() {
        A::lemma_balanced();
        B::lemma_balanced();
        C::lemma_balanced();
        D::lemma_balanced();
        E::lemma_balanced();
        F::lemma_balanced();
        G::lemma_balanced();
        H::lemma_balanced();
        I::lemma_balanced();
        J::lemma_balanced();
        K::lemma_balanced();
        L::lemma_balanced();
        M::lemma_balanced();
        N::lemma_balanced();
        let s = A::raw_spec();
        lemma_counts_add(s, B::raw_spec());
        let s = s + B::raw_spec();
        lemma_counts_add(s, C::raw_spec());
        let s = s + C::raw_spec();
        lemma_counts_add(s, D::raw_spec());
        let s = s + D::raw_spec();
        lemma_counts_add(s, E::raw_spec());
        let s = s + E::raw_spec();
        lemma_counts_add(s, F::raw_spec());
        let s = s + F::raw_spec();
        lemma_counts_add(s, G::raw_spec());
        let s = s + G::raw_spec();
        lemma_counts_add(s, H::raw_spec());
        let s = s + H::raw_spec();
        lemma_counts_add(s, I::raw_spec());
        let s = s + I::raw_spec();
        lemma_counts_add(s, J::raw_spec());
        let s = s + J::raw_spec();
        lemma_counts_add(s, K::raw_spec());
        let s = s + K::raw_spec();
        lemma_counts_add(s, L::raw_spec());
        let s = s + L::raw_spec();
        lemma_counts_add(s, M::raw_spec());
        let s = s + M::raw_spec();
        lemma_counts_add(s, N::raw_spec());
    }
}

impl<
    A: Raw,
    B: Raw,
    C: Raw,
    D: Raw,
    E: Raw,
    F: Raw,
    G: Raw,
    H: Raw,
    I: Raw,
    J: Raw,
    K: Raw,
    L: Raw,
    M: Raw,
    N: Raw,
    O: Raw,
> Raw for (A, B, C, D, E, F, G, H, I, J, K, L, M, N, O) {
    open spec fn raw_spec() -> Seq<crate::op_builder::RawOp> {
        A::raw_spec() + B::raw_spec() + C::raw_spec() + D::raw_spec() + E::raw_spec()
            + F::raw_spec() + G::raw_spec() + H::raw_spec() + I::raw_spec() + J::raw_spec()
            + K::raw_spec() + L::raw_spec() + M::raw_spec() + N::raw_spec() + O::raw_spec()
    }

    fn raw() -> (tape: RawTape) {
        RawTape::new().concat(A::raw()).concat(B::raw()).concat(C::raw()).concat(D::raw())
            .concat(E::raw()).concat(F::raw()).concat(G::raw()).concat(H::raw())
            .concat(I::raw()).concat(J::raw()).concat(K::raw()).concat(L::raw())
            .concat(M::raw()).concat(N::raw()).concat(O::raw())
    }

    proof fn lemma_balanced() {
        A::lemma_balanced();
        B::lemma_balanced();
        C::lemma_balanced();
        D::lemma_balanced();
        E::lemma_balanced();
        F::lemma_balanced();
        G::lemma_balanced();
        H::lemma_balanced();
        I::lemma_balanced();
        J::lemma_balanced();
        K::lemma_balanced();
        L::lemma_balanced();
        M::lemma_balanced();
        N::lemma_balanced();
        O::lemma_balanced();
        let s = A::raw_spec();
        lemma_counts_add(s, B::raw_spec());
        let s = s + B::raw_spec();
        lemma_counts_add(s, C::raw_spec());
        let s = s + C::raw_spec();
        lemma_counts_add(s, D::raw_spec());
        let s = s + D::raw_spec();
        lemma_counts_add(s, E::raw_spec());
        let s = s + E::raw_spec();
        lemma_counts_add(s, F::raw_spec());
        let s = s + F::raw_spec();
        lemma_counts_add(s, G::raw_spec());
        let s = s + G::raw_spec();
        lemma_counts_add(s, H::raw_spec());
        let s = s + H::raw_spec();
        lemma_counts_add(s, I::raw_spec());
        let s = s + I::raw_spec();
        lemma_counts_add(s, J::raw_spec());
        let s = s + J::raw_spec();
        lemma_counts_add(s, K::raw_spec());
        let s = s + K::raw_spec();
        lemma_counts_add(s, L::raw_spec());
        let s = s + L::raw_spec();
        lemma_counts_add(s, M::raw_spec());
        let s = s + M::raw_spec();
        lemma_counts_add(s, N::raw_spec());
        let s = s + N::raw_spec();
        lemma_counts_add(s, O::raw_spec());
    }
}

impl<
    A: Raw,
    B: Raw,
    C: Raw,
    D: Raw,
    E: Raw,
    F: Raw,
    G: Raw,
    H: Raw,
    I: Raw,
    J: Raw,
    K: Raw,
    L: Raw,
    M: Raw,
    N: Raw,
    O: Raw,
    P: Raw,
> Raw for (A, B, C, D, E, F, G, H, I, J, K, L, M, N, O, P) {
    open spec fn raw_spec() -> Seq<crate::op_builder::RawOp> {
        A::raw_spec() + B::raw_spec() + C::raw_spec() + D::raw_spec() + E::raw_spec()
            + F::raw_spec() + G::raw_spec() + H::raw_spec() + I::raw_spec() + J::raw_spec()
            + K::raw_spec() + L::raw_spec() + M::raw_spec() + N::raw_spec() + O::raw_spec()
            + P::raw_spec()
    }

    fn raw() -> (tape: RawTape) {
        RawTape::new().concat(A::raw()).concat(B::raw()).concat(C::raw()).concat(D::raw())
            .concat(E::raw()).concat(F::raw()).concat(G::raw()).concat(H::raw())
            .concat(I::raw()).concat(J::raw()).concat(K::raw()).concat(L::raw())
            .concat(M::raw()).concat(N::raw()).concat(O::raw()).concat(P::raw())
    }

    proof fn lemma_balanced() {
        A::lemma_balanced();
        B::lemma_balanced();
        C::lemma_balanced();
        D::lemma_balanced();
        E::lemma_balanced();
        F::lemma_balanced();
        G::lemma_balanced();
        H::lemma_balanced();
        I::lemma_balanced();
        J::lemma_balanced();
        K::lemma_balanced();
        L::lemma_balanced();
        M::lemma_balanced();
        N::lemma_balanced();
        O::lemma_balanced();
        P::lemma_balanced();
        let s = A::raw_spec();
        lemma_counts_add(s, B::raw_spec());
        let s = s + B::raw_spec();
        lemma_counts_add(s, C::raw_spec());
        let s = s + C::raw_spec();
        lemma_counts_add(s, D::raw_spec());
        let s = s + D::raw_spec();
        lemma_counts_add(s, E::raw_spec());
        let s = s + E::raw_spec();
        lemma_counts_add(s, F::raw_spec());
        let s = s + F::raw_spec();
        lemma_counts_add(s, G::raw_spec());
        let s = s + G::raw_spec();
        lemma_counts_add(s, H::raw_spec());
        let s = s + H::raw_spec();
        lemma_counts_add(s, I::raw_spec());
        let s = s + I::raw_spec();
        lemma_counts_add(s, J::raw_spec());
        let s = s + J::raw_spec();
        lemma_counts_add(s, K::raw_spec());
        let s = s + K::raw_spec();
        lemma_counts_add(s, L::raw_spec());
        let s = s + L::raw_spec();
        lemma_counts_add(s, M::raw_spec());
        let s = s + M::raw_spec();
        lemma_counts_add(s, N::raw_spec());
        let s = s + N::raw_spec();
        lemma_counts_add(s, O::raw_spec());
        let s = s + O::raw_spec();
        lemma_counts_add(s, P::raw_spec());
    }
}

/// A view whose raw ops lower into a template.
pub trait Built: Raw {
    /// The template that this view's raw ops lower into.
    fn template() -> (t: FlatTemplate)
        requires
            drive_ok(Self::raw_spec()),
        ensures
            t.wf(),
            t.model() == drive_spec(Self::raw_spec()),
    {
        proof {
            lemma_drive(Self::raw_spec());
        }
        drive(Self::raw())
    }
}

impl<V: Raw> Built for V {
}

/// What a text node's value holds.
#[derive(Debug, Clone, PartialEq)]
pub struct VText {
    /// The actual text itself
    pub value: String,
}

/// A dynamic node of a template.
#[derive(Debug, Clone, PartialEq)]
pub enum DynamicNode {
    /// A text node
    Text(VText),
}

/// The value of an attribute.
#[derive(Debug, Clone, PartialEq)]
pub enum AttributeValue {
    /// Text attribute
    Text(String),
}

/// A dynamic attribute.
#[derive(Debug, Clone, PartialEq)]
pub struct Attribute {
    /// The name of the attribute.
    pub name: &'static str,
    /// The value of the attribute
    pub value: AttributeValue,
    /// The namespace of the attribute.
    pub namespace: Option<&'static str>,
    /// Whether the attribute is always set again.
    pub volatile: bool,
}

/// What an attribute holds, as plain values.
pub struct AttributeModel {
    pub name: Seq<char>,
    pub value: Seq<char>,
    pub namespace: Option<Seq<char>>,
    pub volatile: bool,
}

/// What a dynamic value holds, as plain values.
pub enum ValueModel {
    Attributes(Seq<AttributeModel>),
    Text(Seq<char>),
}

/// For each value, in order, whether it is a list of attributes.
pub open spec fn value_kinds(values: Seq<ValueModel>) -> Seq<bool> {
    values.map_values(|v: ValueModel| v is Attributes)
}

/// The kinds of two runs of values one after the other.
pub proof fn lemma_value_kinds_add(a: Seq<ValueModel>, b: Seq<ValueModel>)
    ensures
        value_kinds(a + b) == value_kinds(a) + value_kinds(b),
{
    assert(value_kinds(a + b) =~= value_kinds(a) + value_kinds(b));
}

impl vstd::view::View for Attribute {
    type V = AttributeModel;

    open spec fn view(&self) -> AttributeModel {
        AttributeModel {
            name: self.name@,
            value: match self.value {
                AttributeValue::Text(s) => s@,
            },
            namespace: match self.namespace {
                Some(n) => Some(n@),
                None => None,
            },
            volatile: self.volatile,
        }
    }
}

/// One dynamic value of a view: the attributes of one dynamic attribute slot, or one
/// dynamic node.
#[derive(Debug)]
pub enum DynamicValue {
    Attributes(Vec<Attribute>),
    DynamicNode(DynamicNode),
}

impl vstd::view::View for DynamicValue {
    type V = ValueModel;

    open spec fn view(&self) -> ValueModel {
        match self {
            DynamicValue::Attributes(attrs) => ValueModel::Attributes(
                attrs@.map_values(|a: Attribute| a@),
            ),
            DynamicValue::DynamicNode(DynamicNode::Text(t)) => ValueModel::Text(t.value@),
        }
    }
}

/// The dynamic values of a view, in template order, and an optional key.
#[derive(Debug)]
pub struct DynamicValues {
    key: Option<String>,
    values: Vec<DynamicValue>,
}

impl vstd::view::View for DynamicValues {
    type V = Seq<ValueModel>;

    closed spec fn view(&self) -> Seq<ValueModel> {
        self.values@.map_values(|v: DynamicValue| v@)
    }
}

impl DynamicValues {
    /// The key, if one was set.
    pub closed spec fn spec_key(&self) -> Option<Seq<char>> {
        match self.key {
            Some(k) => Some(k@),
            None => None,
        }
    }

    /// No values and no key.
    pub fn new() -> (r: Self)
        ensures
            r@ == Seq::<ValueModel>::empty(),
            r.spec_key() == None::<Seq<char>>,
    {
        let r = Self { key: None, values: Vec::new() };
        assert(r@ =~= Seq::<ValueModel>::empty());
        r
    }

    /// How many values there are.
    pub fn len(&self) -> (n: usize)
        ensures
            n == self@.len(),
    {
        self.values.len()
    }

    /// Whether there is no value.
    pub fn is_empty(&self) -> (b: bool)
        ensures
            b == (self@.len() == 0),
    {
        self.values.len() == 0
    }

    /// The values, in order.
    pub fn values(&self) -> (v: &[DynamicValue])
        ensures
            v@.map_values(|d: DynamicValue| d@) == self@,
    {
        self.values.as_slice()
    }

    /// Adds one dynamic attribute slot that holds `value`.
    pub fn push_attribute(&mut self, value: Attribute)
        ensures
            final(self)@ == old(self)@.push(ValueModel::Attributes(seq![value@])),
            final(self).spec_key() == old(self).spec_key(),
    {
        let ghost old_values = self.values@;
        let mut attrs: Vec<Attribute> = Vec::new();
        attrs.push(value);
        let entry = DynamicValue::Attributes(attrs);
        assert(entry@ == ValueModel::Attributes(seq![value@])) by {
            assert(attrs@.map_values(|a: Attribute| a@) =~= seq![value@]);
        }
        self.values.push(entry);
        assert(self.values@.map_values(|v: DynamicValue| v@) =~= old_values.map_values(
            |v: DynamicValue| v@,
        ).push(ValueModel::Attributes(seq![value@])));
    }

    /// Adds one dynamic node.
    pub fn push_dynamic_node(&mut self, value: DynamicNode)
        ensures
            final(self)@ == old(self)@.push(DynamicValue::DynamicNode(value)@),
            final(self).spec_key() == old(self).spec_key(),
    {
        let ghost old_values = self.values@;
        self.values.push(DynamicValue::DynamicNode(value));
        assert(self.values@.map_values(|v: DynamicValue| v@) =~= old_values.map_values(
            |v: DynamicValue| v@,
        ).push(DynamicValue::DynamicNode(value)@));
    }

    /// Sets the key.
    pub fn set_key(&mut self, key: String)
        ensures
            final(self)@ == old(self)@,
            final(self).spec_key() == Some(key@),
    {
        self.key = Some(key);
    }
}

impl Default for DynamicValues {
    fn default() -> (r: Self)
        ensures
            r@ == Seq::<ValueModel>::empty(),
            r.spec_key() == None::<Seq<char>>,
    {
        Self::new()
    }
}

/// A view lowered: its template and its dynamic values.
#[derive(Debug)]
pub struct VNode {
    template: FlatTemplate,
    dynamic: DynamicValues,
}

impl VNode {
    pub closed spec fn spec_template(&self) -> FlatTemplate {
        self.template
    }

    pub closed spec fn spec_dynamic(&self) -> DynamicValues {
        self.dynamic
    }

    /// The template.
    pub fn template(&self) -> (t: &FlatTemplate)
        ensures
            *t == self.spec_template(),
    {
        &self.template
    }

    /// The dynamic values.
    pub fn dynamic(&self) -> (d: &DynamicValues)
        ensures
            *d == self.spec_dynamic(),
    {
        &self.dynamic
    }
}

/// A composed view: its raw ops, and the dynamic values that it contributes, in the
/// order of its `Dyn` raw ops.
pub trait View: Raw + Built + Sized {
    /// The dynamic values this view contributes.
    spec fn dynamic_spec(&self) -> Seq<ValueModel>;

    /// A view contributes one dynamic value per `Dyn` raw op. Each `Dyn` op has an
    /// `Attr` or `TextNode` op before it, and its value is a list of attributes
    /// exactly where the nearest such op is an `Attr`.
    proof fn lemma_dynamic_kinds(&self)
        ensures
            self.dynamic_spec().len() == count_dyn(Self::raw_spec()),
            dyns_led(Self::raw_spec()),
            value_kinds(self.dynamic_spec()) == dyn_kinds(Self::raw_spec()),
    ;

    /// Adds this view's dynamic values to `dynamic`.
    fn push(self, dynamic: &mut DynamicValues)
        ensures
            final(dynamic)@ == old(dynamic)@ + self.dynamic_spec(),
            final(dynamic).spec_key() == old(dynamic).spec_key(),
    ;

    /// Lowers this view: its template, and its dynamic values in template order, one
    /// per dynamic path of the template, each a list of attributes exactly where its
    /// `Dyn` op follows an `Attr` op. The tape closes every element it opens, so the
    /// skips of the template's elements nest.
    fn into_vnode(self) -> (node: VNode)
        requires
            drive_ok(Self::raw_spec()),
        ensures
            node.spec_template().wf(),
            node.spec_template().model() == drive_spec(Self::raw_spec()),
            node.spec_dynamic()@ == self.dynamic_spec(),
            node.spec_dynamic()@.len() == node.spec_template().dyns@.len(),
            value_kinds(node.spec_dynamic()@) == dyn_kinds(Self::raw_spec()),
            node.spec_dynamic().spec_key() == None::<Seq<char>>,
            skips_nest(node.spec_template().ops@, Seq::<usize>::empty()),
    {
        proof {
            Self::lemma_balanced();
            self.lemma_dynamic_kinds();
            lemma_drive(Self::raw_spec());
        }
        let ghost values = self.dynamic_spec();
        let mut dynamic = DynamicValues::new();
        self.push(&mut dynamic);
        assert(dynamic@ =~= values);
        VNode { template: Self::template(), dynamic }
    }
}

impl View for () {
    open spec fn dynamic_spec(&self) -> Seq<ValueModel> {
        Seq::empty()
    }

    proof fn lemma_dynamic_kinds(&self) {
        assert(value_kinds(Seq::<ValueModel>::empty()) =~= Seq::<bool>::empty());
    }

    fn push(self, dynamic: &mut DynamicValues) {
        assert(dynamic@ =~= dynamic@ + Seq::<ValueModel>::empty());
    }
}

impl<A: View> View for (A,) {
    open spec fn dynamic_spec(&self) -> Seq<ValueModel> {
        self.0.dynamic_spec()
    }

    proof fn lemma_dynamic_kinds(&self) {
        self.0.lemma_dynamic_kinds();
    }

    fn push(self, dynamic: &mut DynamicValues) {
        let (a,) = self;
        a.push(dynamic);
    }
}

impl<A: View, B: View> View for (A, B) {
    open spec fn dynamic_spec(&self) -> Seq<ValueModel> {
        self.0.dynamic_spec() + self.1.dynamic_spec()
    }

    proof fn lemma_dynamic_kinds(&self) {
        self.0.lemma_dynamic_kinds();
        self.1.lemma_dynamic_kinds();
        let s = A::raw_spec();
        let v = self.0.dynamic_spec();
        lemma_counts_add(s, B::raw_spec());
        lemma_kinds_add(s, B::raw_spec());
        lemma_value_kinds_add(v, self.1.dynamic_spec());
    }

    fn push(self, dynamic: &mut DynamicValues) {
        let ghost start = dynamic@;
        let (a, b) = self;
        a.push(dynamic);
        b.push(dynamic);
        assert(dynamic@ =~= start + (
            a.dynamic_spec() + b.dynamic_spec()
        ));
    }
}

impl<A: View, B: View, C: View> View for (A, B, C) {
    open spec fn dynamic_spec(&self) -> Seq<ValueModel> {
        self.0.dynamic_spec() + self.1.dynamic_spec() + self.2.dynamic_spec()
    }

    proof fn lemma_dynamic_kinds(&self) {
        self.0.lemma_dynamic_kinds();
        self.1.lemma_dynamic_kinds();
        self.2.lemma_dynamic_kinds();
        let s = A::raw_spec();
        let v = self.0.dynamic_spec();
        lemma_counts_add(s, B::raw_spec());
        lemma_kinds_add(s, B::raw_spec());
        lemma_value_kinds_add(v, self.1.dynamic_spec());
        let s = s + B::raw_spec();
        let v = v + self.1.dynamic_spec();
        lemma_counts_add(s, C::raw_spec());
        lemma_kinds_add(s, C::raw_spec());
        lemma_value_kinds_add(v, self.2.dynamic_spec());
    }

    fn push(self, dynamic: &mut DynamicValues) {
        let ghost start = dynamic@;
        let (a, b, c) = self;
        a.push(dynamic);
        b.push(dynamic);
        c.push(dynamic);
        assert(dynamic@ =~= start + (
            a.dynamic_spec() + b.dynamic_spec() + c.dynamic_spec()
        ));
    }
}

impl<A: View, B: View, C: View, D: View> View for (A, B, C, D) {
    open spec fn dynamic_spec(&self) -> Seq<ValueModel> {
        self.0.dynamic_spec() + self.1.dynamic_spec() + self.2.dynamic_spec()
            + self.3.dynamic_spec()
    }

    proof fn lemma_dynamic_kinds(&self) {
        self.0.lemma_dynamic_kinds();
        self.1.lemma_dynamic_kinds();
        self.2.lemma_dynamic_kinds();
        self.3.lemma_dynamic_kinds();
        let s = A::raw_spec();
        let v = self.0.dynamic_spec();
        lemma_counts_add(s, B::raw_spec());
        lemma_kinds_add(s, B::raw_spec());
        lemma_value_kinds_add(v, self.1.dynamic_spec());
        let s = s + B::raw_spec();
        let v = v + self.1.dynamic_spec();
        lemma_counts_add(s, C::raw_spec());
        lemma_kinds_add(s, C::raw_spec());
        lemma_value_kinds_add(v, self.2.dynamic_spec());
        let s = s + C::raw_spec();
        let v = v + self.2.dynamic_spec();
        lemma_counts_add(s, D::raw_spec());
        lemma_kinds_add(s, D::raw_spec());
        lemma_value_kinds_add(v, self.3.dynamic_spec());
    }

    fn push(self, dynamic: &mut DynamicValues) {
        let ghost start = dynamic@;
        let (a, b, c, d) = self;
        a.push(dynamic);
        b.push(dynamic);
        c.push(dynamic);
        d.push(dynamic);
        assert(dynamic@ =~= start + (
            a.dynamic_spec() + b.dynamic_spec() + c.dynamic_spec() + d.dynamic_spec()
        ));
    }
}

impl<A: View, B: View, C: View, D: View, E: View> View for (A, B, C, D, E) {
    open spec fn dynamic_spec(&self) -> Seq<ValueModel> {
        self.0.dynamic_spec() + self.1.dynamic_spec() + self.2.dynamic_spec()
            + self.3.dynamic_spec() + self.4.dynamic_spec()
    }

    proof fn lemma_dynamic_kinds(&self) {
        self.0.lemma_dynamic_kinds();
        self.1.lemma_dynamic_kinds();
        self.2.lemma_dynamic_kinds();
        self.3.lemma_dynamic_kinds();
        self.4.lemma_dynamic_kinds();
        let s = A::raw_spec();
        let v = self.0.dynamic_spec();
        lemma_counts_add(s, B::raw_spec());
        lemma_kinds_add(s, B::raw_spec());
        lemma_value_kinds_add(v, self.1.dynamic_spec());
        let s = s + B::raw_spec();
        let v = v + self.1.dynamic_spec();
        lemma_counts_add(s, C::raw_spec());
        lemma_kinds_add(s, C::raw_spec());
        lemma_value_kinds_add(v, self.2.dynamic_spec());
        let s = s + C::raw_spec();
        let v = v + self.2.dynamic_spec();
        lemma_counts_add(s, D::raw_spec());
        lemma_kinds_add(s, D::raw_spec());
        lemma_value_kinds_add(v, self.3.dynamic_spec());
        let s = s + D::raw_spec();
        let v = v + self.3.dynamic_spec();
        lemma_counts_add(s, E::raw_spec());
        lemma_kinds_add(s, E::raw_spec());
        lemma_value_kinds_add(v, self.4.dynamic_spec());
    }

    fn push(self, dynamic: &mut DynamicValues) {
        let ghost start = dynamic@;
        let (a, b, c, d, e) = self;
        a.push(dynamic);
        b.push(dynamic);
        c.push(dynamic);
        d.push(dynamic);
        e.push(dynamic);
        assert(dynamic@ =~= start + (
            a.dynamic_spec() + b.dynamic_spec() + c.dynamic_spec() + d.dynamic_spec()
                + e.dynamic_spec()
        ));
    }
}

impl<A: View, B: View, C: View, D: View, E: View, F: View> View for (A, B, C, D, E, F) {
    open spec fn dynamic_spec(&self) -> Seq<ValueModel> {
        self.0.dynamic_spec() + self.1.dynamic_spec() + self.2.dynamic_spec()
            + self.3.dynamic_spec() + self.4.dynamic_spec() + self.5.dynamic_spec()
    }

    proof fn lemma_dynamic_kinds(&self) {
        self.0.lemma_dynamic_kinds();
        self.1.lemma_dynamic_kinds();
        self.2.lemma_dynamic_kinds();
        self.3.lemma_dynamic_kinds();
        self.4.lemma_dynamic_kinds();
        self.5.lemma_dynamic_kinds();
        let s = A::raw_spec();
        let v = self.0.dynamic_spec();
        lemma_counts_add(s, B::raw_spec());
        lemma_kinds_add(s, B::raw_spec());
        lemma_value_kinds_add(v, self.1.dynamic_spec());
        let s = s + B::raw_spec();
        let v = v + self.1.dynamic_spec();
        lemma_counts_add(s, C::raw_spec());
        lemma_kinds_add(s, C::raw_spec());
        lemma_value_kinds_add(v, self.2.dynamic_spec());
        let s = s + C::raw_spec();
        let v = v + self.2.dynamic_spec();
        lemma_counts_add(s, D::raw_spec());
        lemma_kinds_add(s, D::raw_spec());
        lemma_value_kinds_add(v, self.3.dynamic_spec());
        let s = s + D::raw_spec();
        let v = v + self.3.dynamic_spec();
        lemma_counts_add(s, E::raw_spec());
        lemma_kinds_add(s, E::raw_spec());
        lemma_value_kinds_add(v, self.4.dynamic_spec());
        let s = s + E::raw_spec();
        let v = v + self.4.dynamic_spec();
        lemma_counts_add(s, F::raw_spec());
        lemma_kinds_add(s, F::raw_spec());
        lemma_value_kinds_add(v, self.5.dynamic_spec());
    }

    fn push(self, dynamic: &mut DynamicValues) {
        let ghost start = dynamic@;
        let (a, b, c, d, e, f) = self;
        a.push(dynamic);
        b.push(dynamic);
        c.push(dynamic);
        d.push(dynamic);
        e.push(dynamic);
        f.push(dynamic);
        assert(dynamic@ =~= start + (
            a.dynamic_spec() + b.dynamic_spec() + c.dynamic_spec() + d.dynamic_spec()
                + e.dynamic_spec() + f.dynamic_spec()
        ));
    }
}

impl<A: View, B: View, C: View, D: View, E: View, F: View, G: View> View for (A, B, C, D, E, F, G) {
    open spec fn dynamic_spec(&self) -> Seq<ValueModel> {
        self.0.dynamic_spec() + self.1.dynamic_spec() + self.2.dynamic_spec()
            + self.3.dynamic_spec() + self.4.dynamic_spec() + self.5.dynamic_spec()
            + self.6.dynamic_spec()
    }

    proof fn lemma_dynamic_kinds(&self) {
        self.0.lemma_dynamic_kinds();
        self.1.lemma_dynamic_kinds();
        self.2.lemma_dynamic_kinds();
        self.3.lemma_dynamic_kinds();
        self.4.lemma_dynamic_kinds();
        self.5.lemma_dynamic_kinds();
        self.6.lemma_dynamic_kinds();
        let s = A::raw_spec();
        let v = self.0.dynamic_spec();
        lemma_counts_add(s, B::raw_spec());
        lemma_kinds_add(s, B::raw_spec());
        lemma_value_kinds_add(v, self.1.dynamic_spec());
        let s = s + B::raw_spec();
        let v = v + self.1.dynamic_spec();
        lemma_counts_add(s, C::raw_spec());
        lemma_kinds_add(s, C::raw_spec());
        lemma_value_kinds_add(v, self.2.dynamic_spec());
        let s = s + C::raw_spec();
        let v = v + self.2.dynamic_spec();
        lemma_counts_add(s, D::raw_spec());
        lemma_kinds_add(s, D::raw_spec());
        lemma_value_kinds_add(v, self.3.dynamic_spec());
        let s = s + D::raw_spec();
        let v = v + self.3.dynamic_spec();
        lemma_counts_add(s, E::raw_spec());
        lemma_kinds_add(s, E::raw_spec());
        lemma_value_kinds_add(v, self.4.dynamic_spec());
        let s = s + E::raw_spec();
        let v = v + self.4.dynamic_spec();
        lemma_counts_add(s, F::raw_spec());
        lemma_kinds_add(s, F::raw_spec());
        lemma_value_kinds_add(v, self.5.dynamic_spec());
        let s = s + F::raw_spec();
        let v = v + self.5.dynamic_spec();
        lemma_counts_add(s, G::raw_spec());
        lemma_kinds_add(s, G::raw_spec());
        lemma_value_kinds_add(v, self.6.dynamic_spec());
    }

    fn push(self, dynamic: &mut DynamicValues) {
        let ghost start = dynamic@;
        let (a, b, c, d, e, f, g) = self;
        a.push(dynamic);
        b.push(dynamic);
        c.push(dynamic);
        d.push(dynamic);
        e.push(dynamic);
        f.push(dynamic);
        g.push(dynamic);
        assert(dynamic@ =~= start + (
            a.dynamic_spec() + b.dynamic_spec() + c.dynamic_spec() + d.dynamic_spec()
                + e.dynamic_spec() + f.dynamic_spec() + g.dynamic_spec()
        ));
    }
}

impl<
    A: View,
    B: View,
    C: View,
    D: View,
    E: View,
    F: View,
    G: View,
    H: View,
> View for (A, B, C, D, E, F, G, H) {
    open spec fn dynamic_spec(&self) -> Seq<ValueModel> {
        self.0.dynamic_spec() + self.1.dynamic_spec() + self.2.dynamic_spec()
            + self.3.dynamic_spec() + self.4.dynamic_spec() + self.5.dynamic_spec()
            + self.6.dynamic_spec() + self.7.dynamic_spec()
    }

    proof fn lemma_dynamic_kinds(&self) {
        self.0.lemma_dynamic_kinds();
        self.1.lemma_dynamic_kinds();
        self.2.lemma_dynamic_kinds();
        self.3.lemma_dynamic_kinds();
        self.4.lemma_dynamic_kinds();
        self.5.lemma_dynamic_kinds();
        self.6.lemma_dynamic_kinds();
        self.7.lemma_dynamic_kinds();
        let s = A::raw_spec();
        let v = self.0.dynamic_spec();
        lemma_counts_add(s, B::raw_spec());
        lemma_kinds_add(s, B::raw_spec());
        lemma_value_kinds_add(v, self.1.dynamic_spec());
        let s = s + B::raw_spec();
        let v = v + self.1.dynamic_spec();
        lemma_counts_add(s, C::raw_spec());
        lemma_kinds_add(s, C::raw_spec());
        lemma_value_kinds_add(v, self.2.dynamic_spec());
        let s = s + C::raw_spec();
        let v = v + self.2.dynamic_spec();
        lemma_counts_add(s, D::raw_spec());
        lemma_kinds_add(s, D::raw_spec());
        lemma_value_kinds_add(v, self.3.dynamic_spec());
        let s = s + D::raw_spec();
        let v = v + self.3.dynamic_spec();
        lemma_counts_add(s, E::raw_spec());
        lemma_kinds_add(s, E::raw_spec());
        lemma_value_kinds_add(v, self.4.dynamic_spec());
        let s = s + E::raw_spec();
        let v = v + self.4.dynamic_spec();
        lemma_counts_add(s, F::raw_spec());
        lemma_kinds_add(s, F::raw_spec());
        lemma_value_kinds_add(v, self.5.dynamic_spec());
        let s = s + F::raw_spec();
        let v = v + self.5.dynamic_spec();
        lemma_counts_add(s, G::raw_spec());
        lemma_kinds_add(s, G::raw_spec());
        lemma_value_kinds_add(v, self.6.dynamic_spec());
        let s = s + G::raw_spec();
        let v = v + self.6.dynamic_spec();
        lemma_counts_add(s, H::raw_spec());
        lemma_kinds_add(s, H::raw_spec());
        lemma_value_kinds_add(v, self.7.dynamic_spec());
    }

    fn push(self, dynamic: &mut DynamicValues) {
        let ghost start = dynamic@;
        let (a, b, c, d, e, f, g, h) = self;
        a.push(dynamic);
        b.push(dynamic);
        c.push(dynamic);
        d.push(dynamic);
        e.push(dynamic);
        f.push(dynamic);
        g.push(dynamic);
        h.push(dynamic);
        assert(dynamic@ =~= start + (
            a.dynamic_spec() + b.dynamic_spec() + c.dynamic_spec() + d.dynamic_spec()
                + e.dynamic_spec() + f.dynamic_spec() + g.dynamic_spec() + h.dynamic_spec()
        ));
    }
}

impl<
    A: View,
    B: View,
    C: View,
    D: View,
    E: View,
    F: View,
    G: View,
    H: View,
    I: View,
> View for (A, B, C, D, E, F, G, H, I) {
    open spec fn dynamic_spec(&self) -> Seq<ValueModel> {
        self.0.dynamic_spec() + self.1.dynamic_spec() + self.2.dynamic_spec()
            + self.3.dynamic_spec() + self.4.dynamic_spec() + self.5.dynamic_spec()
            + self.6.dynamic_spec() + self.7.dynamic_spec() + self.8.dynamic_spec()
    }

    proof fn lemma_dynamic_kinds(&self) {
        self.0.lemma_dynamic_kinds();
        self.1.lemma_dynamic_kinds();
        self.2.lemma_dynamic_kinds();
        self.3.lemma_dynamic_kinds();
        self.4.lemma_dynamic_kinds();
        self.5.lemma_dynamic_kinds();
        self.6.lemma_dynamic_kinds();
        self.7.lemma_dynamic_kinds();
        self.8.lemma_dynamic_kinds();
        let s = A::raw_spec();
        let v = self.0.dynamic_spec();
        lemma_counts_add(s, B::raw_spec());
        lemma_kinds_add(s, B::raw_spec());
        lemma_value_kinds_add(v, self.1.dynamic_spec());
        let s = s + B::raw_spec();
        let v = v + self.1.dynamic_spec();
        lemma_counts_add(s, C::raw_spec());
        lemma_kinds_add(s, C::raw_spec());
        lemma_value_kinds_add(v, self.2.dynamic_spec());
        let s = s + C::raw_spec();
        let v = v + self.2.dynamic_spec();
        lemma_counts_add(s, D::raw_spec());
        lemma_kinds_add(s, D::raw_spec());
        lemma_value_kinds_add(v, self.3.dynamic_spec());
        let s = s + D::raw_spec();
        let v = v + self.3.dynamic_spec();
        lemma_counts_add(s, E::raw_spec());
        lemma_kinds_add(s, E::raw_spec());
        lemma_value_kinds_add(v, self.4.dynamic_spec());
        let s = s + E::raw_spec();
        let v = v + self.4.dynamic_spec();
        lemma_counts_add(s, F::raw_spec());
        lemma_kinds_add(s, F::raw_spec());
        lemma_value_kinds_add(v, self.5.dynamic_spec());
        let s = s + F::raw_spec();
        let v = v + self.5.dynamic_spec();
        lemma_counts_add(s, G::raw_spec());
        lemma_kinds_add(s, G::raw_spec());
        lemma_value_kinds_add(v, self.6.dynamic_spec());
        let s = s + G::raw_spec();
        let v = v + self.6.dynamic_spec();
        lemma_counts_add(s, H::raw_spec());
        lemma_kinds_add(s, H::raw_spec());
        lemma_value_kinds_add(v, self.7.dynamic_spec());
        let s = s + H::raw_spec();
        let v = v + self.7.dynamic_spec();
        lemma_counts_add(s, I::raw_spec());
        lemma_kinds_add(s, I::raw_spec());
        lemma_value_kinds_add(v, self.8.dynamic_spec());
    }

    fn push(self, dynamic: &mut DynamicValues) {
        let ghost start = dynamic@;
        let (a, b, c, d, e, f, g, h, i) = self;
        a.push(dynamic);
        b.push(dynamic);
        c.push(dynamic);
        d.push(dynamic);
        e.push(dynamic);
        f.push(dynamic);
        g.push(dynamic);
        h.push(dynamic);
        i.push(dynamic);
        assert(dynamic@ =~= start + (
            a.dynamic_spec() + b.dynamic_spec() + c.dynamic_spec() + d.dynamic_spec()
                + e.dynamic_spec() + f.dynamic_spec() + g.dynamic_spec() + h.dynamic_spec()
                + i.dynamic_spec()
        ));
    }
}

impl<
    A: View,
    B: View,
    C: View,
    D: View,
    E: View,
    F: View,
    G: View,
    H: View,
    I: View,
    J: View,
> View for (A, B, C, D, E, F, G, H, I, J) {
    open spec fn dynamic_spec(&self) -> Seq<ValueModel> {
        self.0.dynamic_spec() + self.1.dynamic_spec() + self.2.dynamic_spec()
            + self.3.dynamic_spec() + self.4.dynamic_spec() + self.5.dynamic_spec()
            + self.6.dynamic_spec() + self.7.dynamic_spec() + self.8.dynamic_spec()
            + self.9.dynamic_spec()
    }

    proof fn lemma_dynamic_kinds(&self) {
        self.0.lemma_dynamic_kinds();
        self.1.lemma_dynamic_kinds();
        self.2.lemma_dynamic_kinds();
        self.3.lemma_dynamic_kinds();
        self.4.lemma_dynamic_kinds();
        self.5.lemma_dynamic_kinds();
        self.6.lemma_dynamic_kinds();
        self.7.lemma_dynamic_kinds();
        self.8.lemma_dynamic_kinds();
        self.9.lemma_dynamic_kinds();
        let s = A::raw_spec();
        let v = self.0.dynamic_spec();
        lemma_counts_add(s, B::raw_spec());
        lemma_kinds_add(s, B::raw_spec());
        lemma_value_kinds_add(v, self.1.dynamic_spec());
        let s = s + B::raw_spec();
        let v = v + self.1.dynamic_spec();
        lemma_counts_add(s, C::raw_spec());
        lemma_kinds_add(s, C::raw_spec());
        lemma_value_kinds_add(v, self.2.dynamic_spec());
        let s = s + C::raw_spec();
        let v = v + self.2.dynamic_spec();
        lemma_counts_add(s, D::raw_spec());
        lemma_kinds_add(s, D::raw_spec());
        lemma_value_kinds_add(v, self.3.dynamic_spec());
        let s = s + D::raw_spec();
        let v = v + self.3.dynamic_spec();
        lemma_counts_add(s, E::raw_spec());
        lemma_kinds_add(s, E::raw_spec());
        lemma_value_kinds_add(v, self.4.dynamic_spec());
        let s = s + E::raw_spec();
        let v = v + self.4.dynamic_spec();
        lemma_counts_add(s, F::raw_spec());
        lemma_kinds_add(s, F::raw_spec());
        lemma_value_kinds_add(v, self.5.dynamic_spec());
        let s = s + F::raw_spec();
        let v = v + self.5.dynamic_spec();
        lemma_counts_add(s, G::raw_spec());
        lemma_kinds_add(s, G::raw_spec());
        lemma_value_kinds_add(v, self.6.dynamic_spec());
        let s = s + G::raw_spec();
        let v = v + self.6.dynamic_spec();
        lemma_counts_add(s, H::raw_spec());
        lemma_kinds_add(s, H::raw_spec());
        lemma_value_kinds_add(v, self.7.dynamic_spec());
        let s = s + H::raw_spec();
        let v = v + self.7.dynamic_spec();
        lemma_counts_add(s, I::raw_spec());
        lemma_kinds_add(s, I::raw_spec());
        lemma_value_kinds_add(v, self.8.dynamic_spec());
        let s = s + I::raw_spec();
        let v = v + self.8.dynamic_spec();
        lemma_counts_add(s, J::raw_spec());
        lemma_kinds_add(s, J::raw_spec());
        lemma_value_kinds_add(v, self.9.dynamic_spec());
    }

    fn push(self, dynamic: &mut DynamicValues) {
        let ghost start = dynamic@;
        let (a, b, c, d, e, f, g, h, i, j) = self;
        a.push(dynamic);
        b.push(dynamic);
        c.push(dynamic);
        d.push(dynamic);
        e.push(dynamic);
        f.push(dynamic);
        g.push(dynamic);
        h.push(dynamic);
        i.push(dynamic);
        j.push(dynamic);
        assert(dynamic@ =~= start + (
            a.dynamic_spec() + b.dynamic_spec() + c.dynamic_spec() + d.dynamic_spec()
                + e.dynamic_spec() + f.dynamic_spec() + g.dynamic_spec() + h.dynamic_spec()
                + i.dynamic_spec() + j.dynamic_spec()
        ));
    }
}

impl<
    A: View,
    B: View,
    C: View,
    D: View,
    E: View,
    F: View,
    G: View,
    H: View,
    I: View,
    J: View,
    K: View,
> View for (A, B, C, D, E, F, G, H, I, J, K) {
    open spec fn dynamic_spec(&self) -> Seq<ValueModel> {
        self.0.dynamic_spec() + self.1.dynamic_spec() + self.2.dynamic_spec()
            + self.3.dynamic_spec() + self.4.dynamic_spec() + self.5.dynamic_spec()
            + self.6.dynamic_spec() + self.7.dynamic_spec() + self.8.dynamic_spec()
            + self.9.dynamic_spec() + self.10.dynamic_spec()
    }

    proof fn lemma_dynamic_kinds(&self) {
        self.0.lemma_dynamic_kinds();
        self.1.lemma_dynamic_kinds();
        self.2.lemma_dynamic_kinds();
        self.3.lemma_dynamic_kinds();
        self.4.lemma_dynamic_kinds();
        self.5.lemma_dynamic_kinds();
        self.6.lemma_dynamic_kinds();
        self.7.lemma_dynamic_kinds();
        self.8.lemma_dynamic_kinds();
        self.9.lemma_dynamic_kinds();
        self.10.lemma_dynamic_kinds();
        let s = A::raw_spec();
        let v = self.0.dynamic_spec();
        lemma_counts_add(s, B::raw_spec());
        lemma_kinds_add(s, B::raw_spec());
        lemma_value_kinds_add(v, self.1.dynamic_spec());
        let s = s + B::raw_spec();
        let v = v + self.1.dynamic_spec();
        lemma_counts_add(s, C::raw_spec());
        lemma_kinds_add(s, C::raw_spec());
        lemma_value_kinds_add(v, self.2.dynamic_spec());
        let s = s + C::raw_spec();
        let v = v + self.2.dynamic_spec();
        lemma_counts_add(s, D::raw_spec());
        lemma_kinds_add(s, D::raw_spec());
        lemma_value_kinds_add(v, self.3.dynamic_spec());
        let s = s + D::raw_spec();
        let v = v + self.3.dynamic_spec();
        lemma_counts_add(s, E::raw_spec());
        lemma_kinds_add(s, E::raw_spec());
        lemma_value_kinds_add(v, self.4.dynamic_spec());
        let s = s + E::raw_spec();
        let v = v + self.4.dynamic_spec();
        lemma_counts_add(s, F::raw_spec());
        lemma_kinds_add(s, F::raw_spec());
        lemma_value_kinds_add(v, self.5.dynamic_spec());
        let s = s + F::raw_spec();
        let v = v + self.5.dynamic_spec();
        lemma_counts_add(s, G::raw_spec());
        lemma_kinds_add(s, G::raw_spec());
        lemma_value_kinds_add(v, self.6.dynamic_spec());
        let s = s + G::raw_spec();
        let v = v + self.6.dynamic_spec();
        lemma_counts_add(s, H::raw_spec());
        lemma_kinds_add(s, H::raw_spec());
        lemma_value_kinds_add(v, self.7.dynamic_spec());
        let s = s + H::raw_spec();
        let v = v + self.7.dynamic_spec();
        lemma_counts_add(s, I::raw_spec());
        lemma_kinds_add(s, I::raw_spec());
        lemma_value_kinds_add(v, self.8.dynamic_spec());
        let s = s + I::raw_spec();
        let v = v + self.8.dynamic_spec();
        lemma_counts_add(s, J::raw_spec());
        lemma_kinds_add(s, J::raw_spec());
        lemma_value_kinds_add(v, self.9.dynamic_spec());
        let s = s + J::raw_spec();
        let v = v + self.9.dynamic_spec();
        lemma_counts_add(s, K::raw_spec());
        lemma_kinds_add(s, K::raw_spec());
        lemma_value_kinds_add(v, self.10.dynamic_spec());
    }

    fn push(self, dynamic: &mut DynamicValues) {
        let ghost start = dynamic@;
        let (a, b, c, d, e, f, g, h, i, j, k) = self;
        a.push(dynamic);
        b.push(dynamic);
        c.push(dynamic);
        d.push(dynamic);
        e.push(dynamic);
        f.push(dynamic);
        g.push(dynamic);
        h.push(dynamic);
        i.push(dynamic);
        j.push(dynamic);
        k.push(dynamic);
        assert(dynamic@ =~= start + (
            a.dynamic_spec() + b.dynamic_spec() + c.dynamic_spec() + d.dynamic_spec()
                + e.dynamic_spec() + f.dynamic_spec() + g.dynamic_spec() + h.dynamic_spec()
                + i.dynamic_spec() + j.dynamic_spec() + k.dynamic_spec()
        ));
    }
}

impl<
    A: View,
    B: View,
    C: View,
    D: View,
    E: View,
    F: View,
    G: View,
    H: View,
    I: View,
    J: View,
    K: View,
    L: View,
> View for (A, B, C, D, E, F, G, H, I, J, K, L) {
    open spec fn dynamic_spec(&self) -> Seq<ValueModel> {
        self.0.dynamic_spec() + self.1.dynamic_spec() + self.2.dynamic_spec()
            + self.3.dynamic_spec() + self.4.dynamic_spec() + self.5.dynamic_spec()
            + self.6.dynamic_spec() + self.7.dynamic_spec() + self.8.dynamic_spec()
            + self.9.dynamic_spec() + self.10.dynamic_spec() + self.11.dynamic_spec()
    }

    proof fn lemma_dynamic_kinds(&self) {
        self.0.lemma_dynamic_kinds();
        self.1.lemma_dynamic_kinds();
        self.2.lemma_dynamic_kinds();
        self.3.lemma_dynamic_kinds();
        self.4.lemma_dynamic_kinds();
        self.5.lemma_dynamic_kinds();
        self.6.lemma_dynamic_kinds();
        self.7.lemma_dynamic_kinds();
        self.8.lemma_dynamic_kinds();
        self.9.lemma_dynamic_kinds();
        self.10.lemma_dynamic_kinds();
        self.11.lemma_dynamic_kinds();
        let s = A::raw_spec();
        let v = self.0.dynamic_spec();
        lemma_counts_add(s, B::raw_spec());
        lemma_kinds_add(s, B::raw_spec());
        lemma_value_kinds_add(v, self.1.dynamic_spec());
        let s = s + B::raw_spec();
        let v = v + self.1.dynamic_spec();
        lemma_counts_add(s, C::raw_spec());
        lemma_kinds_add(s, C::raw_spec());
        lemma_value_kinds_add(v, self.2.dynamic_spec());
        let s = s + C::raw_spec();
        let v = v + self.2.dynamic_spec();
        lemma_counts_add(s, D::raw_spec());
        lemma_kinds_add(s, D::raw_spec());
        lemma_value_kinds_add(v, self.3.dynamic_spec());
        let s = s + D::raw_spec();
        let v = v + self.3.dynamic_spec();
        lemma_counts_add(s, E::raw_spec());
        lemma_kinds_add(s, E::raw_spec());
        lemma_value_kinds_add(v, self.4.dynamic_spec());
        let s = s + E::raw_spec();
        let v = v + self.4.dynamic_spec();
        lemma_counts_add(s, F::raw_spec());
        lemma_kinds_add(s, F::raw_spec());
        lemma_value_kinds_add(v, self.5.dynamic_spec());
        let s = s + F::raw_spec();
        let v = v + self.5.dynamic_spec();
        lemma_counts_add(s, G::raw_spec());
        lemma_kinds_add(s, G::raw_spec());
        lemma_value_kinds_add(v, self.6.dynamic_spec());
        let s = s + G::raw_spec();
        let v = v + self.6.dynamic_spec();
        lemma_counts_add(s, H::raw_spec());
        lemma_kinds_add(s, H::raw_spec());
        lemma_value_kinds_add(v, self.7.dynamic_spec());
        let s = s + H::raw_spec();
        let v = v + self.7.dynamic_spec();
        lemma_counts_add(s, I::raw_spec());
        lemma_kinds_add(s, I::raw_spec());
        lemma_value_kinds_add(v, self.8.dynamic_spec());
        let s = s + I::raw_spec();
        let v = v + self.8.dynamic_spec();
        lemma_counts_add(s, J::raw_spec());
        lemma_kinds_add(s, J::raw_spec());
        lemma_value_kinds_add(v, self.9.dynamic_spec());
        let s = s + J::raw_spec();
        let v = v + self.9.dynamic_spec();
        lemma_counts_add(s, K::raw_spec());
        lemma_kinds_add(s, K::raw_spec());
        lemma_value_kinds_add(v, self.10.dynamic_spec());
        let s = s + K::raw_spec();
        let v = v + self.10.dynamic_spec();
        lemma_counts_add(s, L::raw_spec());
        lemma_kinds_add(s, L::raw_spec());
        lemma_value_kinds_add(v, self.11.dynamic_spec());
    }

    fn push(self, dynamic: &mut DynamicValues) {
        let ghost start = dynamic@;
        let (a, b, c, d, e, f, g, h, i, j, k, l) = self;
        a.push(dynamic);
        b.push(dynamic);
        c.push(dynamic);
        d.push(dynamic);
        e.push(dynamic);
        f.push(dynamic);
        g.push(dynamic);
        h.push(dynamic);
        i.push(dynamic);
        j.push(dynamic);
        k.push(dynamic);
        l.push(dynamic);
        assert(dynamic@ =~= start + (
            a.dynamic_spec() + b.dynamic_spec() + c.dynamic_spec() + d.dynamic_spec()
                + e.dynamic_spec() + f.dynamic_spec() + g.dynamic_spec() + h.dynamic_spec()
                + i.dynamic_spec() + j.dynamic_spec() + k.dynamic_spec() + l.dynamic_spec()
        ));
    }
}

impl<
    A: View,
    B: View,
    C: View,
    D: View,
    E: View,
    F: View,
    G: View,
    H: View,
    I: View,
    J: View,
    K: View,
    L: View,
    M: View,
> View for (A, B, C, D, E, F, G, H, I, J, K, L, M) {
    open spec fn dynamic_spec(&self) -> Seq<ValueModel> {
        self.0.dynamic_spec() + self.1.dynamic_spec() + self.2.dynamic_spec()
            + self.3.dynamic_spec() + self.4.dynamic_spec() + self.5.dynamic_spec()
            + self.6.dynamic_spec() + self.7.dynamic_spec() + self.8.dynamic_spec()
            + self.9.dynamic_spec() + self.10.dynamic_spec() + self.11.dynamic_spec()
            + self.12.dynamic_spec()
    }

    proof fn lemma_dynamic_kinds(&self) {
        self.0.lemma_dynamic_kinds();
        self.1.lemma_dynamic_kinds();
        self.2.lemma_dynamic_kinds();
        self.3.lemma_dynamic_kinds();
        self.4.lemma_dynamic_kinds();
        self.5.lemma_dynamic_kinds();
        self.6.lemma_dynamic_kinds();
        self.7.lemma_dynamic_kinds();
        self.8.lemma_dynamic_kinds();
        self.9.lemma_dynamic_kinds();
        self.10.lemma_dynamic_kinds();
        self.11.lemma_dynamic_kinds();
        self.12.lemma_dynamic_kinds();
        let s = A::raw_spec();
        let v = self.0.dynamic_spec();
        lemma_counts_add(s, B::raw_spec());
        lemma_kinds_add(s, B::raw_spec());
        lemma_value_kinds_add(v, self.1.dynamic_spec());
        let s = s + B::raw_spec();
        let v = v + self.1.dynamic_spec();
        lemma_counts_add(s, C::raw_spec());
        lemma_kinds_add(s, C::raw_spec());
        lemma_value_kinds_add(v, self.2.dynamic_spec());
        let s = s + C::raw_spec();
        let v = v + self.2.dynamic_spec();
        lemma_counts_add(s, D::raw_spec());
        lemma_kinds_add(s, D::raw_spec());
        lemma_value_kinds_add(v, self.3.dynamic_spec());
        let s = s + D::raw_spec();
        let v = v + self.3.dynamic_spec();
        lemma_counts_add(s, E::raw_spec());
        lemma_kinds_add(s, E::raw_spec());
        lemma_value_kinds_add(v, self.4.dynamic_spec());
        let s = s + E::raw_spec();
        let v = v + self.4.dynamic_spec();
        lemma_counts_add(s, F::raw_spec());
        lemma_kinds_add(s, F::raw_spec());
        lemma_value_kinds_add(v, self.5.dynamic_spec());
        let s = s + F::raw_spec();
        let v = v + self.5.dynamic_spec();
        lemma_counts_add(s, G::raw_spec());
        lemma_kinds_add(s, G::raw_spec());
        lemma_value_kinds_add(v, self.6.dynamic_spec());
        let s = s + G::raw_spec();
        let v = v + self.6.dynamic_spec();
        lemma_counts_add(s, H::raw_spec());
        lemma_kinds_add(s, H::raw_spec());
        lemma_value_kinds_add(v, self.7.dynamic_spec());
        let s = s + H::raw_spec();
        let v = v + self.7.dynamic_spec();
        lemma_counts_add(s, I::raw_spec());
        lemma_kinds_add(s, I::raw_spec());
        lemma_value_kinds_add(v, self.8.dynamic_spec());
        let s = s + I::raw_spec();
        let v = v + self.8.dynamic_spec();
        lemma_counts_add(s, J::raw_spec());
        lemma_kinds_add(s, J::raw_spec());
        lemma_value_kinds_add(v, self.9.dynamic_spec());
        let s = s + J::raw_spec();
        let v = v + self.9.dynamic_spec();
        lemma_counts_add(s, K::raw_spec());
        lemma_kinds_add(s, K::raw_spec());
        lemma_value_kinds_add(v, self.10.dynamic_spec());
        let s = s + K::raw_spec();
        let v = v + self.10.dynamic_spec();
        lemma_counts_add(s, L::raw_spec());
        lemma_kinds_add(s, L::raw_spec());
        lemma_value_kinds_add(v, self.11.dynamic_spec());
        let s = s + L::raw_spec();
        let v = v + self.11.dynamic_spec();
        lemma_counts_add(s, M::raw_spec());
        lemma_kinds_add(s, M::raw_spec());
        lemma_value_kinds_add(v, self.12.dynamic_spec());
    }

    fn push(self, dynamic: &mut DynamicValues) {
        let ghost start = dynamic@;
        let (a, b, c, d, e, f, g, h, i, j, k, l, m) = self;
        a.push(dynamic);
        b.push(dynamic);
        c.push(dynamic);
        d.push(dynamic);
        e.push(dynamic);
        f.push(dynamic);
        g.push(dynamic);
        h.push(dynamic);
        i.push(dynamic);
        j.push(dynamic);
        k.push(dynamic);
        l.push(dynamic);
        m.push(dynamic);
        assert(dynamic@ =~= start + (
            a.dynamic_spec() + b.dynamic_spec() + c.dynamic_spec() + d.dynamic_spec()
                + e.dynamic_spec() + f.dynamic_spec() + g.dynamic_spec() + h.dynamic_spec()
                + i.dynamic_spec() + j.dynamic_spec() + k.dynamic_spec() + l.dynamic_spec()
                + m.dynamic_spec()
        ));
    }
}

impl<
    A: View,
    B: View,
    C: View,
    D: View,
    E: View,
    F: View,
    G: View,
    H: View,
    I: View,
    J: View,
    K: View,
    L: View,
    M: View,
    N: View,
> View for (A, B, C, D, E, F, G, H, I, J, K, L, M, N) {
    open spec fn dynamic_spec(&self) -> Seq<ValueModel> {
        self.0.dynamic_spec() + self.1.dynamic_spec() + self.2.dynamic_spec()
            + self.3.dynamic_spec() + self.4.dynamic_spec() + self.5.dynamic_spec()
            + self.6.dynamic_spec() + self.7.dynamic_spec() + self.8.dynamic_spec()
            + self.9.dynamic_spec() + self.10.dynamic_spec() + self.11.dynamic_spec()
            + self.12.dynamic_spec() + self.13.dynamic_spec()
    }

    proof fn lemma_dynamic_kinds(&self) {
        self.0.lemma_dynamic_kinds();
        self.1.lemma_dynamic_kinds();
        self.2.lemma_dynamic_kinds();
        self.3.lemma_dynamic_kinds();
        self.4.lemma_dynamic_kinds();
        self.5.lemma_dynamic_kinds();
        self.6.lemma_dynamic_kinds();
        self.7.lemma_dynamic_kinds();
        self.8.lemma_dynamic_kinds();
        self.9.lemma_dynamic_kinds();
        self.10.lemma_dynamic_kinds();
        self.11.lemma_dynamic_kinds();
        self.12.lemma_dynamic_kinds();
        self.13.lemma_dynamic_kinds();
        let s = A::raw_spec();
        let v = self.0.dynamic_spec();
        lemma_counts_add(s, B::raw_spec());
        lemma_kinds_add(s, B::raw_spec());
        lemma_value_kinds_add(v, self.1.dynamic_spec());
        let s = s + B::raw_spec();
        let v = v + self.1.dynamic_spec();
        lemma_counts_add(s, C::raw_spec());
        lemma_kinds_add(s, C::raw_spec());
        lemma_value_kinds_add(v, self.2.dynamic_spec());
        let s = s + C::raw_spec();
        let v = v + self.2.dynamic_spec();
        lemma_counts_add(s, D::raw_spec());
        lemma_kinds_add(s, D::raw_spec());
        lemma_value_kinds_add(v, self.3.dynamic_spec());
        let s = s + D::raw_spec();
        let v = v + self.3.dynamic_spec();
        lemma_counts_add(s, E::raw_spec());
        lemma_kinds_add(s, E::raw_spec());
        lemma_value_kinds_add(v, self.4.dynamic_spec());
        let s = s + E::raw_spec();
        let v = v + self.4.dynamic_spec();
        lemma_counts_add(s, F::raw_spec());
        lemma_kinds_add(s, F::raw_spec());
        lemma_value_kinds_add(v, self.5.dynamic_spec());
        let s = s + F::raw_spec();
        let v = v + self.5.dynamic_spec();
        lemma_counts_add(s, G::raw_spec());
        lemma_kinds_add(s, G::raw_spec());
        lemma_value_kinds_add(v, self.6.dynamic_spec());
        let s = s + G::raw_spec();
        let v = v + self.6.dynamic_spec();
        lemma_counts_add(s, H::raw_spec());
        lemma_kinds_add(s, H::raw_spec());
        lemma_value_kinds_add(v, self.7.dynamic_spec());
        let s = s + H::raw_spec();
        let v = v + self.7.dynamic_spec();
        lemma_counts_add(s, I::raw_spec());
        lemma_kinds_add(s, I::raw_spec());
        lemma_value_kinds_add(v, self.8.dynamic_spec());
        let s = s + I::raw_spec();
        let v = v + self.8.dynamic_spec();
        lemma_counts_add(s, J::raw_spec());
        lemma_kinds_add(s, J::raw_spec());
        lemma_value_kinds_add(v, self.9.dynamic_spec());
        let s = s + J::raw_spec();
        let v = v + self.9.dynamic_spec();
        lemma_counts_add(s, K::raw_spec());
        lemma_kinds_add(s, K::raw_spec());
        lemma_value_kinds_add(v, self.10.dynamic_spec());
        let s = s + K::raw_spec();
        let v = v + self.10.dynamic_spec();
        lemma_counts_add(s, L::raw_spec());
        lemma_kinds_add(s, L::raw_spec());
        lemma_value_kinds_add(v, self.11.dynamic_spec());
        let s = s + L::raw_spec();
        let v = v + self.11.dynamic_spec();
        lemma_counts_add(s, M::raw_spec());
        lemma_kinds_add(s, M::raw_spec());
        lemma_value_kinds_add(v, self.12.dynamic_spec());
        let s = s + M::raw_spec();
        let v = v + self.12.dynamic_spec();
        lemma_counts_add(s, N::raw_spec());
        lemma_kinds_add(s, N::raw_spec());
        lemma_value_kinds_add(v, self.13.dynamic_spec());
    }

    fn push(self, dynamic: &mut DynamicValues) {
        let ghost start = dynamic@;
        let (a, b, c, d, e, f, g, h, i, j, k, l, m, n) = self;
        a.push(dynamic);
        b.push(dynamic);
        c.push(dynamic);
        d.push(dynamic);
        e.push(dynamic);
        f.push(dynamic);
        g.push(dynamic);
        h.push(dynamic);
        i.push(dynamic);
        j.push(dynamic);
        k.push(dynamic);
        l.push(dynamic);
        m.push(dynamic);
        n.push(dynamic);
        assert(dynamic@ =~= start + (
            a.dynamic_spec() + b.dynamic_spec() + c.dynamic_spec() + d.dynamic_spec()
                + e.dynamic_spec() + f.dynamic_spec() + g.dynamic_spec() + h.dynamic_spec()
                + i.dynamic_spec() + j.dynamic_spec() + k.dynamic_spec() + l.dynamic_spec()
                + m.dynamic_spec() + n.dynamic_spec()
        ));
    }
}

impl<
    A: View,
    B: View,
    C: View,
    D: View,
    E: View,
    F: View,
    G: View,
    H: View,
    I: View,
    J: View,
    K: View,
    L: View,
    M: View,
    N: View,
    O: View,
> View for (A, B, C, D, E, F, G, H, I, J, K, L, M, N, O) {
    open spec fn dynamic_spec(&self) -> Seq<ValueModel> {
        self.0.dynamic_spec() + self.1.dynamic_spec() + self.2.dynamic_spec()
            + self.3.dynamic_spec() + self.4.dynamic_spec() + self.5.dynamic_spec()
            + self.6.dynamic_spec() + self.7.dynamic_spec() + self.8.dynamic_spec()
            + self.9.dynamic_spec() + self.10.dynamic_spec() + self.11.dynamic_spec()
            + self.12.dynamic_spec() + self.13.dynamic_spec() + self.14.dynamic_spec()
    }

    proof fn lemma_dynamic_kinds(&self) {
        self.0.lemma_dynamic_kinds();
        self.1.lemma_dynamic_kinds();
        self.2.lemma_dynamic_kinds();
        self.3.lemma_dynamic_kinds();
        self.4.lemma_dynamic_kinds();
        self.5.lemma_dynamic_kinds();
        self.6.lemma_dynamic_kinds();
        self.7.lemma_dynamic_kinds();
        self.8.lemma_dynamic_kinds();
        self.9.lemma_dynamic_kinds();
        self.10.lemma_dynamic_kinds();
        self.11.lemma_dynamic_kinds();
        self.12.lemma_dynamic_kinds();
        self.13.lemma_dynamic_kinds();
        self.14.lemma_dynamic_kinds();
        let s = A::raw_spec();
        let v = self.0.dynamic_spec();
        lemma_counts_add(s, B::raw_spec());
        lemma_kinds_add(s, B::raw_spec());
        lemma_value_kinds_add(v, self.1.dynamic_spec());
        let s = s + B::raw_spec();
        let v = v + self.1.dynamic_spec();
        lemma_counts_add(s, C::raw_spec());
        lemma_kinds_add(s, C::raw_spec());
        lemma_value_kinds_add(v, self.2.dynamic_spec());
        let s = s + C::raw_spec();
        let v = v + self.2.dynamic_spec();
        lemma_counts_add(s, D::raw_spec());
        lemma_kinds_add(s, D::raw_spec());
        lemma_value_kinds_add(v, self.3.dynamic_spec());
        let s = s + D::raw_spec();
        let v = v + self.3.dynamic_spec();
        lemma_counts_add(s, E::raw_spec());
        lemma_kinds_add(s, E::raw_spec());
        lemma_value_kinds_add(v, self.4.dynamic_spec());
        let s = s + E::raw_spec();
        let v = v + self.4.dynamic_spec();
        lemma_counts_add(s, F::raw_spec());
        lemma_kinds_add(s, F::raw_spec());
        lemma_value_kinds_add(v, self.5.dynamic_spec());
        let s = s + F::raw_spec();
        let v = v + self.5.dynamic_spec();
        lemma_counts_add(s, G::raw_spec());
        lemma_kinds_add(s, G::raw_spec());
        lemma_value_kinds_add(v, self.6.dynamic_spec());
        let s = s + G::raw_spec();
        let v = v + self.6.dynamic_spec();
        lemma_counts_add(s, H::raw_spec());
        lemma_kinds_add(s, H::raw_spec());
        lemma_value_kinds_add(v, self.7.dynamic_spec());
        let s = s + H::raw_spec();
        let v = v + self.7.dynamic_spec();
        lemma_counts_add(s, I::raw_spec());
        lemma_kinds_add(s, I::raw_spec());
        lemma_value_kinds_add(v, self.8.dynamic_spec());
        let s = s + I::raw_spec();
        let v = v + self.8.dynamic_spec();
        lemma_counts_add(s, J::raw_spec());
        lemma_kinds_add(s, J::raw_spec());
        lemma_value_kinds_add(v, self.9.dynamic_spec());
        let s = s + J::raw_spec();
        let v = v + self.9.dynamic_spec();
        lemma_counts_add(s, K::raw_spec());
        lemma_kinds_add(s, K::raw_spec());
        lemma_value_kinds_add(v, self.10.dynamic_spec());
        let s = s + K::raw_spec();
        let v = v + self.10.dynamic_spec();
        lemma_counts_add(s, L::raw_spec());
        lemma_kinds_add(s, L::raw_spec());
        lemma_value_kinds_add(v, self.11.dynamic_spec());
        let s = s + L::raw_spec();
        let v = v + self.11.dynamic_spec();
        lemma_counts_add(s, M::raw_spec());
        lemma_kinds_add(s, M::raw_spec());
        lemma_value_kinds_add(v, self.12.dynamic_spec());
        let s = s + M::raw_spec();
        let v = v + self.12.dynamic_spec();
        lemma_counts_add(s, N::raw_spec());
        lemma_kinds_add(s, N::raw_spec());
        lemma_value_kinds_add(v, self.13.dynamic_spec());
        let s = s + N::raw_spec();
        let v = v + self.13.dynamic_spec();
        lemma_counts_add(s, O::raw_spec());
        lemma_kinds_add(s, O::raw_spec());
        lemma_value_kinds_add(v, self.14.dynamic_spec());
    }

    fn push(self, dynamic: &mut DynamicValues) {
        let ghost start = dynamic@;
        let (a, b, c, d, e, f, g, h, i, j, k, l, m, n, o) = self;
        a.push(dynamic);
        b.push(dynamic);
        c.push(dynamic);
        d.push(dynamic);
        e.push(dynamic);
        f.push(dynamic);
        g.push(dynamic);
        h.push(dynamic);
        i.push(dynamic);
        j.push(dynamic);
        k.push(dynamic);
        l.push(dynamic);
        m.push(dynamic);
        n.push(dynamic);
        o.push(dynamic);
        assert(dynamic@ =~= start + (
            a.dynamic_spec() + b.dynamic_spec() + c.dynamic_spec() + d.dynamic_spec()
                + e.dynamic_spec() + f.dynamic_spec() + g.dynamic_spec() + h.dynamic_spec()
                + i.dynamic_spec() + j.dynamic_spec() + k.dynamic_spec() + l.dynamic_spec()
                + m.dynamic_spec() + n.dynamic_spec() + o.dynamic_spec()
        ));
    }
}

impl<
    A: View,
    B: View,
    C: View,
    D: View,
    E: View,
    F: View,
    G: View,
    H: View,
    I: View,
    J: View,
    K: View,
    L: View,
    M: View,
    N: View,
    O: View,
    P: View,
> View for (A, B, C, D, E, F, G, H, I, J, K, L, M, N, O, P) {
    open spec fn dynamic_spec(&self) -> Seq<ValueModel> {
        self.0.dynamic_spec() + self.1.dynamic_spec() + self.2.dynamic_spec()
            + self.3.dynamic_spec() + self.4.dynamic_spec() + self.5.dynamic_spec()
            + self.6.dynamic_spec() + self.7.dynamic_spec() + self.8.dynamic_spec()
            + self.9.dynamic_spec() + self.10.dynamic_spec() + self.11.dynamic_spec()
            + self.12.dynamic_spec() + self.13.dynamic_spec() + self.14.dynamic_spec()
            + self.15.dynamic_spec()
    }

    proof fn lemma_dynamic_kinds(&self) {
        self.0.lemma_dynamic_kinds();
        self.1.lemma_dynamic_kinds();
        self.2.lemma_dynamic_kinds();
        self.3.lemma_dynamic_kinds();
        self.4.lemma_dynamic_kinds();
        self.5.lemma_dynamic_kinds();
        self.6.lemma_dynamic_kinds();
        self.7.lemma_dynamic_kinds();
        self.8.lemma_dynamic_kinds();
        self.9.lemma_dynamic_kinds();
        self.10.lemma_dynamic_kinds();
        self.11.lemma_dynamic_kinds();
        self.12.lemma_dynamic_kinds();
        self.13.lemma_dynamic_kinds();
        self.14.lemma_dynamic_kinds();
        self.15.lemma_dynamic_kinds();
        let s = A::raw_spec();
        let v = self.0.dynamic_spec();
        lemma_counts_add(s, B::raw_spec());
        lemma_kinds_add(s, B::raw_spec());
        lemma_value_kinds_add(v, self.1.dynamic_spec());
        let s = s + B::raw_spec();
        let v = v + self.1.dynamic_spec();
        lemma_counts_add(s, C::raw_spec());
        lemma_kinds_add(s, C::raw_spec());
        lemma_value_kinds_add(v, self.2.dynamic_spec());
        let s = s + C::raw_spec();
        let v = v + self.2.dynamic_spec();
        lemma_counts_add(s, D::raw_spec());
        lemma_kinds_add(s, D::raw_spec());
        lemma_value_kinds_add(v, self.3.dynamic_spec());
        let s = s + D::raw_spec();
        let v = v + self.3.dynamic_spec();
        lemma_counts_add(s, E::raw_spec());
        lemma_kinds_add(s, E::raw_spec());
        lemma_value_kinds_add(v, self.4.dynamic_spec());
        let s = s + E::raw_spec();
        let v = v + self.4.dynamic_spec();
        lemma_counts_add(s, F::raw_spec());
        lemma_kinds_add(s, F::raw_spec());
        lemma_value_kinds_add(v, self.5.dynamic_spec());
        let s = s + F::raw_spec();
        let v = v + self.5.dynamic_spec();
        lemma_counts_add(s, G::raw_spec());
        lemma_kinds_add(s, G::raw_spec());
        lemma_value_kinds_add(v, self.6.dynamic_spec());
        let s = s + G::raw_spec();
        let v = v + self.6.dynamic_spec();
        lemma_counts_add(s, H::raw_spec());
        lemma_kinds_add(s, H::raw_spec());
        lemma_value_kinds_add(v, self.7.dynamic_spec());
        let s = s + H::raw_spec();
        let v = v + self.7.dynamic_spec();
        lemma_counts_add(s, I::raw_spec());
        lemma_kinds_add(s, I::raw_spec());
        lemma_value_kinds_add(v, self.8.dynamic_spec());
        let s = s + I::raw_spec();
        let v = v + self.8.dynamic_spec();
        lemma_counts_add(s, J::raw_spec());
        lemma_kinds_add(s, J::raw_spec());
        lemma_value_kinds_add(v, self.9.dynamic_spec());
        let s = s + J::raw_spec();
        let v = v + self.9.dynamic_spec();
        lemma_counts_add(s, K::raw_spec());
        lemma_kinds_add(s, K::raw_spec());
        lemma_value_kinds_add(v, self.10.dynamic_spec());
        let s = s + K::raw_spec();
        let v = v + self.10.dynamic_spec();
        lemma_counts_add(s, L::raw_spec());
        lemma_kinds_add(s, L::raw_spec());
        lemma_value_kinds_add(v, self.11.dynamic_spec());
        let s = s + L::raw_spec();
        let v = v + self.11.dynamic_spec();
        lemma_counts_add(s, M::raw_spec());
        lemma_kinds_add(s, M::raw_spec());
        lemma_value_kinds_add(v, self.12.dynamic_spec());
        let s = s + M::raw_spec();
        let v = v + self.12.dynamic_spec();
        lemma_counts_add(s, N::raw_spec());
        lemma_kinds_add(s, N::raw_spec());
        lemma_value_kinds_add(v, self.13.dynamic_spec());
        let s = s + N::raw_spec();
        let v = v + self.13.dynamic_spec();
        lemma_counts_add(s, O::raw_spec());
        lemma_kinds_add(s, O::raw_spec());
        lemma_value_kinds_add(v, self.14.dynamic_spec());
        let s = s + O::raw_spec();
        let v = v + self.14.dynamic_spec();
        lemma_counts_add(s, P::raw_spec());
        lemma_kinds_add(s, P::raw_spec());
        lemma_value_kinds_add(v, self.15.dynamic_spec());
    }

    fn push(self, dynamic: &mut DynamicValues) {
        let ghost start = dynamic@;
        let (a, b, c, d, e, f, g, h, i, j, k, l, m, n, o, p) = self;
        a.push(dynamic);
        b.push(dynamic);
        c.push(dynamic);
        d.push(dynamic);
        e.push(dynamic);
        f.push(dynamic);
        g.push(dynamic);
        h.push(dynamic);
        i.push(dynamic);
        j.push(dynamic);
        k.push(dynamic);
        l.push(dynamic);
        m.push(dynamic);
        n.push(dynamic);
        o.push(dynamic);
        p.push(dynamic);
        assert(dynamic@ =~= start + (
            a.dynamic_spec() + b.dynamic_spec() + c.dynamic_spec() + d.dynamic_spec()
                + e.dynamic_spec() + f.dynamic_spec() + g.dynamic_spec() + h.dynamic_spec()
                + i.dynamic_spec() + j.dynamic_spec() + k.dynamic_spec() + l.dynamic_spec()
                + m.dynamic_spec() + n.dynamic_spec() + o.dynamic_spec() + p.dynamic_spec()
        ));
    }
}

/// A tuple of one view lowers as its element: the same raw ops and the same dynamic
/// values.
pub proof fn lemma_tuple_1<A: View>(v: &(A,))
    ensures
        <(A,) as Raw>::raw_spec() == A::raw_spec(),
        v.dynamic_spec() == v.0.dynamic_spec(),
        <(A,) as Raw>::raw_spec().len() == A::raw_spec().len(),
{
}

/// A tuple of 2 views lowers its elements one after the other: its raw ops are
/// theirs in order, its dynamic values are theirs in order, and no op is lost.
pub proof fn lemma_tuple_2<A: View, B: View>(v: &(A, B))
    ensures
        <(A, B) as Raw>::raw_spec() == A::raw_spec() + B::raw_spec(),
        v.dynamic_spec() == v.0.dynamic_spec() + v.1.dynamic_spec(),
        <(A, B) as Raw>::raw_spec().len() == A::raw_spec().len() + B::raw_spec().len(),
{
}

/// A tuple of 3 views lowers its elements one after the other: its raw ops are
/// theirs in order, its dynamic values are theirs in order, and no op is lost.
pub proof fn lemma_tuple_3<A: View, B: View, C: View>(v: &(A, B, C))
    ensures
        <(A, B, C) as Raw>::raw_spec() == A::raw_spec() + B::raw_spec() + C::raw_spec(),
        v.dynamic_spec() == v.0.dynamic_spec() + v.1.dynamic_spec() + v.2.dynamic_spec(),
        <(A, B, C) as Raw>::raw_spec().len() == A::raw_spec().len() + B::raw_spec().len()
            + C::raw_spec().len(),
{
}

/// A tuple of 4 views lowers its elements one after the other: its raw ops are
/// theirs in order, its dynamic values are theirs in order, and no op is lost.
pub proof fn lemma_tuple_4<A: View, B: View, C: View, D: View>(v: &(A, B, C, D))
    ensures
        <(A, B, C, D) as Raw>::raw_spec() == A::raw_spec() + B::raw_spec() + C::raw_spec()
            + D::raw_spec(),
        v.dynamic_spec() == v.0.dynamic_spec() + v.1.dynamic_spec() + v.2.dynamic_spec()
            + v.3.dynamic_spec(),
        <(A, B, C, D) as Raw>::raw_spec().len() == A::raw_spec().len() + B::raw_spec().len()
            + C::raw_spec().len() + D::raw_spec().len(),
{
}

/// A tuple of 5 views lowers its elements one after the other: its raw ops are
/// theirs in order, its dynamic values are theirs in order, and no op is lost.
pub proof fn lemma_tuple_5<A: View, B: View, C: View, D: View, E: View>(v: &(A, B, C, D, E))
    ensures
        <(A, B, C, D, E) as Raw>::raw_spec() == A::raw_spec() + B::raw_spec() + C::raw_spec()
            + D::raw_spec() + E::raw_spec(),
        v.dynamic_spec() == v.0.dynamic_spec() + v.1.dynamic_spec() + v.2.dynamic_spec()
            + v.3.dynamic_spec() + v.4.dynamic_spec(),
        <(A, B, C, D, E) as Raw>::raw_spec().len() == A::raw_spec().len() + B::raw_spec().len()
            + C::raw_spec().len() + D::raw_spec().len() + E::raw_spec().len(),
{
}

/// A tuple of 6 views lowers its elements one after the other: its raw ops are
/// theirs in order, its dynamic values are theirs in order, and no op is lost.
pub proof fn lemma_tuple_6<
    A: View,
    B: View,
    C: View,
    D: View,
    E: View,
    F: View,
>(v: &(A, B, C, D, E, F))
    ensures
        <(A, B, C, D, E, F) as Raw>::raw_spec() == A::raw_spec() + B::raw_spec() + C::raw_spec()
            + D::raw_spec() + E::raw_spec() + F::raw_spec(),
        v.dynamic_spec() == v.0.dynamic_spec() + v.1.dynamic_spec() + v.2.dynamic_spec()
            + v.3.dynamic_spec() + v.4.dynamic_spec() + v.5.dynamic_spec(),
        <(A, B, C, D, E, F) as Raw>::raw_spec().len() == A::raw_spec().len()
            + B::raw_spec().len() + C::raw_spec().len() + D::raw_spec().len()
            + E::raw_spec().len() + F::raw_spec().len(),
{
}

/// A tuple of 7 views lowers its elements one after the other: its raw ops are
/// theirs in order, its dynamic values are theirs in order, and no op is lost.
pub proof fn lemma_tuple_7<
    A: View,
    B: View,
    C: View,
    D: View,
    E: View,
    F: View,
    G: View,
>(v: &(A, B, C, D, E, F, G))
    ensures
        <(A, B, C, D, E, F, G) as Raw>::raw_spec() == A::raw_spec() + B::raw_spec()
            + C::raw_spec() + D::raw_spec() + E::raw_spec() + F::raw_spec() + G::raw_spec(),
        v.dynamic_spec() == v.0.dynamic_spec() + v.1.dynamic_spec() + v.2.dynamic_spec()
            + v.3.dynamic_spec() + v.4.dynamic_spec() + v.5.dynamic_spec() + v.6.dynamic_spec(),
        <(A, B, C, D, E, F, G) as Raw>::raw_spec().len() == A::raw_spec().len()
            + B::raw_spec().len() + C::raw_spec().len() + D::raw_spec().len()
            + E::raw_spec().len() + F::raw_spec().len() + G::raw_spec().len(),
{
}

/// A tuple of 8 views lowers its elements one after the other: its raw ops are
/// theirs in order, its dynamic values are theirs in order, and no op is lost.
pub proof fn lemma_tuple_8<
    A: View,
    B: View,
    C: View,
    D: View,
    E: View,
    F: View,
    G: View,
    H: View,
>(v: &(A, B, C, D, E, F, G, H))
    ensures
        <(A, B, C, D, E, F, G, H) as Raw>::raw_spec() == A::raw_spec() + B::raw_spec()
            + C::raw_spec() + D::raw_spec() + E::raw_spec() + F::raw_spec() + G::raw_spec()
            + H::raw_spec(),
        v.dynamic_spec() == v.0.dynamic_spec() + v.1.dynamic_spec() + v.2.dynamic_spec()
            + v.3.dynamic_spec() + v.4.dynamic_spec() + v.5.dynamic_spec() + v.6.dynamic_spec()
            + v.7.dynamic_spec(),
        <(A, B, C, D, E, F, G, H) as Raw>::raw_spec().len() == A::raw_spec().len()
            + B::raw_spec().len() + C::raw_spec().len() + D::raw_spec().len()
            + E::raw_spec().len() + F::raw_spec().len() + G::raw_spec().len()
            + H::raw_spec().len(),
{
}

/// A tuple of 9 views lowers its elements one after the other: its raw ops are
/// theirs in order, its dynamic values are theirs in order, and no op is lost.
pub proof fn lemma_tuple_9<
    A: View,
    B: View,
    C: View,
    D: View,
    E: View,
    F: View,
    G: View,
    H: View,
    I: View,
>(v: &(A, B, C, D, E, F, G, H, I))
    ensures
        <(A, B, C, D, E, F, G, H, I) as Raw>::raw_spec() == A::raw_spec() + B::raw_spec()
            + C::raw_spec() + D::raw_spec() + E::raw_spec() + F::raw_spec() + G::raw_spec()
            + H::raw_spec() + I::raw_spec(),
        v.dynamic_spec() == v.0.dynamic_spec() + v.1.dynamic_spec() + v.2.dynamic_spec()
            + v.3.dynamic_spec() + v.4.dynamic_spec() + v.5.dynamic_spec() + v.6.dynamic_spec()
            + v.7.dynamic_spec() + v.8.dynamic_spec(),
        <(A, B, C, D, E, F, G, H, I) as Raw>::raw_spec().len() == A::raw_spec().len()
            + B::raw_spec().len() + C::raw_spec().len() + D::raw_spec().len()
            + E::raw_spec().len() + F::raw_spec().len() + G::raw_spec().len()
            + H::raw_spec().len() + I::raw_spec().len(),
{
}

/// A tuple of 10 views lowers its elements one after the other: its raw ops are
/// theirs in order, its dynamic values are theirs in order, and no op is lost.
pub proof fn lemma_tuple_10<
    A: View,
    B: View,
    C: View,
    D: View,
    E: View,
    F: View,
    G: View,
    H: View,
    I: View,
    J: View,
>(v: &(A, B, C, D, E, F, G, H, I, J))
    ensures
        <(A, B, C, D, E, F, G, H, I, J) as Raw>::raw_spec() == A::raw_spec() + B::raw_spec()
            + C::raw_spec() + D::raw_spec() + E::raw_spec() + F::raw_spec() + G::raw_spec()
            + H::raw_spec() + I::raw_spec() + J::raw_spec(),
        v.dynamic_spec() == v.0.dynamic_spec() + v.1.dynamic_spec() + v.2.dynamic_spec()
            + v.3.dynamic_spec() + v.4.dynamic_spec() + v.5.dynamic_spec() + v.6.dynamic_spec()
            + v.7.dynamic_spec() + v.8.dynamic_spec() + v.9.dynamic_spec(),
        <(A, B, C, D, E, F, G, H, I, J) as Raw>::raw_spec().len() == A::raw_spec().len()
            + B::raw_spec().len() + C::raw_spec().len() + D::raw_spec().len()
            + E::raw_spec().len() + F::raw_spec().len() + G::raw_spec().len()
            + H::raw_spec().len() + I::raw_spec().len() + J::raw_spec().len(),
{
}

/// A tuple of 11 views lowers its elements one after the other: its raw ops are
/// theirs in order, its dynamic values are theirs in order, and no op is lost.
pub proof fn lemma_tuple_11<
    A: View,
    B: View,
    C: View,
    D: View,
    E: View,
    F: View,
    G: View,
    H: View,
    I: View,
    J: View,
    K: View,
>(v: &(A, B, C, D, E, F, G, H, I, J, K))
    ensures
        <(A, B, C, D, E, F, G, H, I, J, K) as Raw>::raw_spec() == A::raw_spec() + B::raw_spec()
            + C::raw_spec() + D::raw_spec() + E::raw_spec() + F::raw_spec() + G::raw_spec()
            + H::raw_spec() + I::raw_spec() + J::raw_spec() + K::raw_spec(),
        v.dynamic_spec() == v.0.dynamic_spec() + v.1.dynamic_spec() + v.2.dynamic_spec()
            + v.3.dynamic_spec() + v.4.dynamic_spec() + v.5.dynamic_spec() + v.6.dynamic_spec()
            + v.7.dynamic_spec() + v.8.dynamic_spec() + v.9.dynamic_spec() + v.10.dynamic_spec(),
        <(A, B, C, D, E, F, G, H, I, J, K) as Raw>::raw_spec().len() == A::raw_spec().len()
            + B::raw_spec().len() + C::raw_spec().len() + D::raw_spec().len()
            + E::raw_spec().len() + F::raw_spec().len() + G::raw_spec().len()
            + H::raw_spec().len() + I::raw_spec().len() + J::raw_spec().len()
            + K::raw_spec().len(),
{
}

/// A tuple of 12 views lowers its elements one after the other: its raw ops are
/// theirs in order, its dynamic values are theirs in order, and no op is lost.
pub proof fn lemma_tuple_12<
    A: View,
    B: View,
    C: View,
    D: View,
    E: View,
    F: View,
    G: View,
    H: View,
    I: View,
    J: View,
    K: View,
    L: View,
>(v: &(A, B, C, D, E, F, G, H, I, J, K, L))
    ensures
        <(A, B, C, D, E, F, G, H, I, J, K, L) as Raw>::raw_spec() == A::raw_spec()
            + B::raw_spec() + C::raw_spec() + D::raw_spec() + E::raw_spec() + F::raw_spec()
            + G::raw_spec() + H::raw_spec() + I::raw_spec() + J::raw_spec() + K::raw_spec()
            + L::raw_spec(),
        v.dynamic_spec() == v.0.dynamic_spec() + v.1.dynamic_spec() + v.2.dynamic_spec()
            + v.3.dynamic_spec() + v.4.dynamic_spec() + v.5.dynamic_spec() + v.6.dynamic_spec()
            + v.7.dynamic_spec() + v.8.dynamic_spec() + v.9.dynamic_spec() + v.10.dynamic_spec()
            + v.11.dynamic_spec(),
        <(A, B, C, D, E, F, G, H, I, J, K, L) as Raw>::raw_spec().len() == A::raw_spec().len()
            + B::raw_spec().len() + C::raw_spec().len() + D::raw_spec().len()
            + E::raw_spec().len() + F::raw_spec().len() + G::raw_spec().len()
            + H::raw_spec().len() + I::raw_spec().len() + J::raw_spec().len()
            + K::raw_spec().len() + L::raw_spec().len(),
{
}

/// A tuple of 13 views lowers its elements one after the other: its raw ops are
/// theirs in order, its dynamic values are theirs in order, and no op is lost.
pub proof fn lemma_tuple_13<
    A: View,
    B: View,
    C: View,
    D: View,
    E: View,
    F: View,
    G: View,
    H: View,
    I: View,
    J: View,
    K: View,
    L: View,
    M: View,
>(v: &(A, B, C, D, E, F, G, H, I, J, K, L, M))
    ensures
        <(A, B, C, D, E, F, G, H, I, J, K, L, M) as Raw>::raw_spec() == A::raw_spec()
            + B::raw_spec() + C::raw_spec() + D::raw_spec() + E::raw_spec() + F::raw_spec()
            + G::raw_spec() + H::raw_spec() + I::raw_spec() + J::raw_spec() + K::raw_spec()
            + L::raw_spec() + M::raw_spec(),
        v.dynamic_spec() == v.0.dynamic_spec() + v.1.dynamic_spec() + v.2.dynamic_spec()
            + v.3.dynamic_spec() + v.4.dynamic_spec() + v.5.dynamic_spec() + v.6.dynamic_spec()
            + v.7.dynamic_spec() + v.8.dynamic_spec() + v.9.dynamic_spec() + v.10.dynamic_spec()
            + v.11.dynamic_spec() + v.12.dynamic_spec(),
        <(A, B, C, D, E, F, G, H, I, J, K, L, M) as Raw>::raw_spec().len() == A::raw_spec().len()
            + B::raw_spec().len() + C::raw_spec().len() + D::raw_spec().len()
            + E::raw_spec().len() + F::raw_spec().len() + G::raw_spec().len()
            + H::raw_spec().len() + I::raw_spec().len() + J::raw_spec().len()
            + K::raw_spec().len() + L::raw_spec().len() + M::raw_spec().len(),
{
}

/// A tuple of 14 views lowers its elements one after the other: its raw ops are
/// theirs in order, its dynamic values are theirs in order, and no op is lost.
pub proof fn lemma_tuple_14<
    A: View,
    B: View,
    C: View,
    D: View,
    E: View,
    F: View,
    G: View,
    H: View,
    I: View,
    J: View,
    K: View,
    L: View,
    M: View,
    N: View,
>(v: &(A, B, C, D, E, F, G, H, I, J, K, L, M, N))
    ensures
        <(A, B, C, D, E, F, G, H, I, J, K, L, M, N) as Raw>::raw_spec() == A::raw_spec()
            + B::raw_spec() + C::raw_spec() + D::raw_spec() + E::raw_spec() + F::raw_spec()
            + G::raw_spec() + H::raw_spec() + I::raw_spec() + J::raw_spec() + K::raw_spec()
            + L::raw_spec() + M::raw_spec() + N::raw_spec(),
        v.dynamic_spec() == v.0.dynamic_spec() + v.1.dynamic_spec() + v.2.dynamic_spec()
            + v.3.dynamic_spec() + v.4.dynamic_spec() + v.5.dynamic_spec() + v.6.dynamic_spec()
            + v.7.dynamic_spec() + v.8.dynamic_spec() + v.9.dynamic_spec() + v.10.dynamic_spec()
            + v.11.dynamic_spec() + v.12.dynamic_spec() + v.13.dynamic_spec(),
        <(A, B, C, D, E, F, G, H, I, J, K, L, M, N) as Raw>::raw_spec().len() == A::raw_spec().len()
            + B::raw_spec().len() + C::raw_spec().len() + D::raw_spec().len()
            + E::raw_spec().len() + F::raw_spec().len() + G::raw_spec().len()
            + H::raw_spec().len() + I::raw_spec().len() + J::raw_spec().len()
            + K::raw_spec().len() + L::raw_spec().len() + M::raw_spec().len()
            + N::raw_spec().len(),
{
}

/// A tuple of 15 views lowers its elements one after the other: its raw ops are
/// theirs in order, its dynamic values are theirs in order, and no op is lost.
pub proof fn lemma_tuple_15<
    A: View,
    B: View,
    C: View,
    D: View,
    E: View,
    F: View,
    G: View,
    H: View,
    I: View,
    J: View,
    K: View,
    L: View,
    M: View,
    N: View,
    O: View,
>(v: &(A, B, C, D, E, F, G, H, I, J, K, L, M, N, O))
    ensures
        <(A, B, C, D, E, F, G, H, I, J, K, L, M, N, O) as Raw>::raw_spec() == A::raw_spec()
            + B::raw_spec() + C::raw_spec() + D::raw_spec() + E::raw_spec() + F::raw_spec()
            + G::raw_spec() + H::raw_spec() + I::raw_spec() + J::raw_spec() + K::raw_spec()
            + L::raw_spec() + M::raw_spec() + N::raw_spec() + O::raw_spec(),
        v.dynamic_spec() == v.0.dynamic_spec() + v.1.dynamic_spec() + v.2.dynamic_spec()
            + v.3.dynamic_spec() + v.4.dynamic_spec() + v.5.dynamic_spec() + v.6.dynamic_spec()
            + v.7.dynamic_spec() + v.8.dynamic_spec() + v.9.dynamic_spec() + v.10.dynamic_spec()
            + v.11.dynamic_spec() + v.12.dynamic_spec() + v.13.dynamic_spec()
            + v.14.dynamic_spec(),
        <(A, B, C, D, E, F, G, H, I, J, K, L, M, N, O) as Raw>::raw_spec().len() == A::raw_spec().len()
            + B::raw_spec().len() + C::raw_spec().len() + D::raw_spec().len()
            + E::raw_spec().len() + F::raw_spec().len() + G::raw_spec().len()
            + H::raw_spec().len() + I::raw_spec().len() + J::raw_spec().len()
            + K::raw_spec().len() + L::raw_spec().len() + M::raw_spec().len()
            + N::raw_spec().len() + O::raw_spec().len(),
{
}

/// A tuple of 16 views lowers its elements one after the other: its raw ops are
/// theirs in order, its dynamic values are theirs in order, and no op is lost.
pub proof fn lemma_tuple_16<
    A: View,
    B: View,
    C: View,
    D: View,
    E: View,
    F: View,
    G: View,
    H: View,
    I: View,
    J: View,
    K: View,
    L: View,
    M: View,
    N: View,
    O: View,
    P: View,
>(v: &(A, B, C, D, E, F, G, H, I, J, K, L, M, N, O, P))
    ensures
        <(A, B, C, D, E, F, G, H, I, J, K, L, M, N, O, P) as Raw>::raw_spec() == A::raw_spec()
            + B::raw_spec() + C::raw_spec() + D::raw_spec() + E::raw_spec() + F::raw_spec()
            + G::raw_spec() + H::raw_spec() + I::raw_spec() + J::raw_spec() + K::raw_spec()
            + L::raw_spec() + M::raw_spec() + N::raw_spec() + O::raw_spec() + P::raw_spec(),
        v.dynamic_spec() == v.0.dynamic_spec() + v.1.dynamic_spec() + v.2.dynamic_spec()
            + v.3.dynamic_spec() + v.4.dynamic_spec() + v.5.dynamic_spec() + v.6.dynamic_spec()
            + v.7.dynamic_spec() + v.8.dynamic_spec() + v.9.dynamic_spec() + v.10.dynamic_spec()
            + v.11.dynamic_spec() + v.12.dynamic_spec() + v.13.dynamic_spec()
            + v.14.dynamic_spec() + v.15.dynamic_spec(),
        <(A, B, C, D, E, F, G, H, I, J, K, L, M, N, O, P) as Raw>::raw_spec().len() == A::raw_spec().len()
            + B::raw_spec().len() + C::raw_spec().len() + D::raw_spec().len()
            + E::raw_spec().len() + F::raw_spec().len() + G::raw_spec().len()
            + H::raw_spec().len() + I::raw_spec().len() + J::raw_spec().len()
            + K::raw_spec().len() + L::raw_spec().len() + M::raw_spec().len()
            + N::raw_spec().len() + O::raw_spec().len() + P::raw_spec().len(),
{
}

} // verus!
