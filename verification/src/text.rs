//! Text nodes whose value is given when the view is built.
use core::marker::PhantomData;
use vstd::prelude::*;
use vstd::view::View as _;

use crate::op_builder::{
    balanced, count_dyn, dyn_kinds, lemma_counts_push, lemma_kinds_push, RawOp, RawTape,
};
use crate::traits::{value_kinds, DynamicNode, DynamicValues, Raw, VText, ValueModel, View};

verus! {

/// A static text, named by a type.
pub trait TextNode {
    const TEXT: &'static str;
}

/// A static text child whose text `T` names.
pub struct StaticText<T>(PhantomData<T>);

/// The static text child whose text `T` names.
pub fn static_text<T: TextNode>() -> StaticText<T> {
    StaticText(PhantomData)
}

impl<T: TextNode> Raw for StaticText<T> {
    open spec fn raw_spec() -> Seq<RawOp> {
        seq![RawOp::TextNode, RawOp::Text(T::TEXT)]
    }

    fn raw() -> (tape: RawTape) {
        RawTape::new().push(RawOp::TextNode).push(RawOp::Text(T::TEXT))
    }

    proof fn lemma_balanced() {
        let s0 = Seq::<RawOp>::empty();
        lemma_counts_push(s0, RawOp::TextNode);
        lemma_counts_push(s0.push(RawOp::TextNode), RawOp::Text(T::TEXT));
        assert(Self::raw_spec() =~= s0.push(RawOp::TextNode).push(RawOp::Text(T::TEXT)));
    }
}

impl<T: TextNode> View for StaticText<T> {
    open spec fn dynamic_spec(&self) -> Seq<ValueModel> {
        Seq::empty()
    }

    proof fn lemma_dynamic_kinds(&self) {
        let s0 = Seq::<RawOp>::empty();
        lemma_counts_push(s0, RawOp::TextNode);
        lemma_counts_push(s0.push(RawOp::TextNode), RawOp::Text(T::TEXT));
        lemma_kinds_push(s0, RawOp::TextNode);
        lemma_kinds_push(s0.push(RawOp::TextNode), RawOp::Text(T::TEXT));
        assert(count_dyn(s0) == 0);
        assert(dyn_kinds(s0) =~= Seq::<bool>::empty());
        assert(Self::raw_spec() =~= s0.push(RawOp::TextNode).push(RawOp::Text(T::TEXT)));
        assert(value_kinds(Seq::<ValueModel>::empty()) =~= Seq::<bool>::empty());
    }

    fn push(self, dynamic: &mut DynamicValues) {
        assert(dynamic@ =~= dynamic@ + Seq::<ValueModel>::empty());
    }
}

/// A dynamic text child.
pub struct Dynamic(pub String);

/// A dynamic text child that holds `s`.
pub fn dynamic(s: &str) -> (d: Dynamic)
    ensures
        d.0@ == s@,
{
    Dynamic(s.to_owned())
}

impl Raw for Dynamic {
    open spec fn raw_spec() -> Seq<RawOp> {
        seq![RawOp::TextNode, RawOp::Dyn]
    }

    fn raw() -> (tape: RawTape) {
        RawTape::new().push(RawOp::TextNode).push(RawOp::Dyn)
    }

    proof fn lemma_balanced() {
        let s0 = Seq::<RawOp>::empty();
        lemma_counts_push(s0, RawOp::TextNode);
        lemma_counts_push(s0.push(RawOp::TextNode), RawOp::Dyn);
        assert(Self::raw_spec() =~= s0.push(RawOp::TextNode).push(RawOp::Dyn));
    }
}

impl View for Dynamic {
    open spec fn dynamic_spec(&self) -> Seq<ValueModel> {
        seq![ValueModel::Text(self.0@)]
    }

    proof fn lemma_dynamic_kinds(&self) {
        let s0 = Seq::<RawOp>::empty();
        lemma_counts_push(s0, RawOp::TextNode);
        lemma_counts_push(s0.push(RawOp::TextNode), RawOp::Dyn);
        assert(count_dyn(s0) == 0);
        assert(Self::raw_spec() =~= s0.push(RawOp::TextNode).push(RawOp::Dyn));
        lemma_kinds_push(s0, RawOp::TextNode);
        lemma_kinds_push(s0.push(RawOp::TextNode), RawOp::Dyn);
        assert(dyn_kinds(s0) =~= Seq::<bool>::empty());
        assert(dyn_kinds(Self::raw_spec()) =~= seq![false]);
        assert(value_kinds(self.dynamic_spec()) =~= seq![false]);
    }

    fn push(self, dynamic: &mut DynamicValues) {
        let ghost start = dynamic@;
        let node = DynamicNode::Text(VText { value: self.0 });
        dynamic.push_dynamic_node(node);
        assert(dynamic@ =~= start + self.dynamic_spec());
    }
}

} // verus!
