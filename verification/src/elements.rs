//! Elements: a tag, attributes and children.
use core::marker::PhantomData;
use vstd::prelude::*;
use vstd::view::View as _;

use crate::op_builder::{
    dyn_kinds, lemma_counts_add, lemma_counts_single, lemma_kinds_add, lemma_kinds_single, RawOp,
    RawTape, CAP,
};
use crate::traits::{lemma_value_kinds_add, DynamicValues, Raw, ValueModel, View};

verus! {

/// A tag, named by a type.
pub trait TagName {
    const NAME: &'static str;
}

/// An element with tag `Tag`, attributes `At` and children `Ch`.
pub struct El<Tag, At, Ch> {
    attrs: At,
    children: Ch,
    _t: PhantomData<Tag>,
}

impl<Tag, At, Ch> El<Tag, At, Ch> {
    /// The attributes.
    pub closed spec fn spec_attrs(self) -> At {
        self.attrs
    }

    /// The children.
    pub closed spec fn spec_children(self) -> Ch {
        self.children
    }

    /// This element with one more attribute, after the ones it has.
    pub fn attr<A>(self, a: A) -> (r: El<Tag, (At, A), Ch>)
        ensures
            r.spec_attrs() == (self.spec_attrs(), a),
            r.spec_children() == self.spec_children(),
    {
        El { attrs: (self.attrs, a), children: self.children, _t: PhantomData }
    }

    /// This element with one more child, after the ones it has.
    pub fn child<C>(self, c: C) -> (r: El<Tag, At, (Ch, C)>)
        ensures
            r.spec_attrs() == self.spec_attrs(),
            r.spec_children() == (self.spec_children(), c),
    {
        El { attrs: self.attrs, children: (self.children, c), _t: PhantomData }
    }
}

/// An element with tag `Tag`, no attribute and no child.
pub fn el<Tag>() -> (r: El<Tag, (), ()>)
    ensures
        r.spec_attrs() == (),
        r.spec_children() == (),
{
    El { attrs: (), children: (), _t: PhantomData }
}

impl<Tag: TagName, At: Raw, Ch: Raw> Raw for El<Tag, At, Ch> {
    open spec fn raw_spec() -> Seq<RawOp> {
        seq![RawOp::Open(Tag::NAME)] + At::raw_spec() + Ch::raw_spec() + seq![RawOp::Close]
    }

    fn raw() -> (tape: RawTape) {
        let tape = RawTape::new().push(RawOp::Open(Tag::NAME)).concat(At::raw()).concat(Ch::raw()).push(
            RawOp::Close,
        );
        assert(tape@ =~= Self::raw_spec());
        tape
    }

    proof fn lemma_balanced() {
        At::lemma_balanced();
        Ch::lemma_balanced();
        let open = seq![RawOp::Open(Tag::NAME)];
        let close = seq![RawOp::Close];
        lemma_counts_add(open, At::raw_spec());
        lemma_counts_add(open + At::raw_spec(), Ch::raw_spec());
        lemma_counts_add(open + At::raw_spec() + Ch::raw_spec(), close);
        lemma_counts_single(RawOp::Open(Tag::NAME));
        lemma_counts_single(RawOp::Close);
    }
}

impl<Tag: TagName, At: View, Ch: View> View for El<Tag, At, Ch> {
    open spec fn dynamic_spec(&self) -> Seq<ValueModel> {
        self.spec_attrs().dynamic_spec() + self.spec_children().dynamic_spec()
    }

    proof fn lemma_dynamic_kinds(&self) {
        self.spec_attrs().lemma_dynamic_kinds();
        self.spec_children().lemma_dynamic_kinds();
        let open = seq![RawOp::Open(Tag::NAME)];
        let close = seq![RawOp::Close];
        lemma_counts_add(open, At::raw_spec());
        lemma_counts_add(open + At::raw_spec(), Ch::raw_spec());
        lemma_counts_add(open + At::raw_spec() + Ch::raw_spec(), close);
        lemma_counts_single(RawOp::Open(Tag::NAME));
        lemma_counts_single(RawOp::Close);
        lemma_kinds_single(RawOp::Open(Tag::NAME));
        lemma_kinds_single(RawOp::Close);
        lemma_kinds_add(open, At::raw_spec());
        lemma_kinds_add(open + At::raw_spec(), Ch::raw_spec());
        lemma_kinds_add(open + At::raw_spec() + Ch::raw_spec(), close);
        lemma_value_kinds_add(self.spec_attrs().dynamic_spec(), self.spec_children().dynamic_spec());
        let none = Seq::<bool>::empty();
        assert(none + dyn_kinds(At::raw_spec()) =~= dyn_kinds(At::raw_spec()));
        let inner = dyn_kinds(At::raw_spec()) + dyn_kinds(Ch::raw_spec());
        assert(inner + none =~= inner);
    }

    fn push(self, dynamic: &mut DynamicValues) {
        let ghost start = dynamic@;
        let El { attrs, children, _t } = self;
        attrs.push(dynamic);
        children.push(dynamic);
        assert(dynamic@ =~= start + (attrs.dynamic_spec() + children.dynamic_spec()));
    }
}

} // verus!
