//! Attributes whose value is given when the view is built.
use core::marker::PhantomData;
use vstd::prelude::*;
use vstd::view::View as _;

use crate::op_builder::{
    balanced, count_dyn, dyn_kinds, lemma_counts_push, lemma_kinds_push, RawOp, RawTape,
};
use crate::text::TextNode;
use crate::traits::{
    value_kinds, Attribute, AttributeModel, AttributeValue, DynamicValues, Raw, ValueModel, View,
};

verus! {

/// An attribute name, named by a type.
pub trait AttrName {
    const NAME: &'static str;
}

/// A static attribute: the attribute that `Name` names, with the text that `Value`
/// names.
pub struct StaticAttr<Name, Value>(PhantomData<(Name, Value)>);

/// The static attribute that `Name` names, with the text that `Value` names.
pub fn static_attr<Name: AttrName, Value: TextNode>() -> StaticAttr<Name, Value> {
    StaticAttr(PhantomData)
}

impl<Name: AttrName, Value: TextNode> Raw for StaticAttr<Name, Value> {
    open spec fn raw_spec() -> Seq<RawOp> {
        seq![RawOp::Attr, RawOp::Text(Name::NAME), RawOp::Text(Value::TEXT)]
    }

    fn raw() -> (tape: RawTape) {
        RawTape::new().push(RawOp::Attr).push(RawOp::Text(Name::NAME)).push(
            RawOp::Text(Value::TEXT),
        )
    }

    proof fn lemma_balanced() {
        let s0 = Seq::<RawOp>::empty();
        let s1 = s0.push(RawOp::Attr);
        let s2 = s1.push(RawOp::Text(Name::NAME));
        lemma_counts_push(s0, RawOp::Attr);
        lemma_counts_push(s1, RawOp::Text(Name::NAME));
        lemma_counts_push(s2, RawOp::Text(Value::TEXT));
        assert(Self::raw_spec() =~= s2.push(RawOp::Text(Value::TEXT)));
    }
}

impl<Name: AttrName, Value: TextNode> View for StaticAttr<Name, Value> {
    open spec fn dynamic_spec(&self) -> Seq<ValueModel> {
        Seq::empty()
    }

    proof fn lemma_dynamic_kinds(&self) {
        let s0 = Seq::<RawOp>::empty();
        let s1 = s0.push(RawOp::Attr);
        let s2 = s1.push(RawOp::Text(Name::NAME));
        lemma_counts_push(s0, RawOp::Attr);
        lemma_counts_push(s1, RawOp::Text(Name::NAME));
        lemma_counts_push(s2, RawOp::Text(Value::TEXT));
        lemma_kinds_push(s0, RawOp::Attr);
        lemma_kinds_push(s1, RawOp::Text(Name::NAME));
        lemma_kinds_push(s2, RawOp::Text(Value::TEXT));
        assert(count_dyn(s0) == 0);
        assert(dyn_kinds(s0) =~= Seq::<bool>::empty());
        assert(Self::raw_spec() =~= s2.push(RawOp::Text(Value::TEXT)));
        assert(value_kinds(Seq::<ValueModel>::empty()) =~= Seq::<bool>::empty());
    }

    fn push(self, dynamic: &mut DynamicValues) {
        assert(dynamic@ =~= dynamic@ + Seq::<ValueModel>::empty());
    }
}

/// A dynamic attribute value for the attribute that `Name` names.
pub struct DynAttr<Name>(pub String, pub PhantomData<Name>);

/// A dynamic value `v` for the attribute that `Name` names.
pub fn attr_dyn<Name>(v: &str) -> (a: DynAttr<Name>)
    ensures
        a.0@ == v@,
{
    DynAttr(v.to_owned(), PhantomData)
}

impl<Name: AttrName> Raw for DynAttr<Name> {
    open spec fn raw_spec() -> Seq<RawOp> {
        seq![RawOp::Attr, RawOp::Text(Name::NAME), RawOp::Dyn]
    }

    fn raw() -> (tape: RawTape) {
        RawTape::new().push(RawOp::Attr).push(RawOp::Text(Name::NAME)).push(RawOp::Dyn)
    }

    proof fn lemma_balanced() {
        let s0 = Seq::<RawOp>::empty();
        lemma_counts_push(s0, RawOp::Attr);
        lemma_counts_push(s0.push(RawOp::Attr), RawOp::Text(Name::NAME));
        lemma_counts_push(s0.push(RawOp::Attr).push(RawOp::Text(Name::NAME)), RawOp::Dyn);
        assert(Self::raw_spec() =~= s0.push(RawOp::Attr).push(RawOp::Text(Name::NAME)).push(
            RawOp::Dyn,
        ));
    }
}

impl<Name: AttrName> View for DynAttr<Name> {
    open spec fn dynamic_spec(&self) -> Seq<ValueModel> {
        seq![
            ValueModel::Attributes(
                seq![
                    AttributeModel {
                        name: Name::NAME@,
                        value: self.0@,
                        namespace: None,
                        volatile: false,
                    },
                ],
            ),
        ]
    }

    proof fn lemma_dynamic_kinds(&self) {
        let s0 = Seq::<RawOp>::empty();
        lemma_counts_push(s0, RawOp::Attr);
        lemma_counts_push(s0.push(RawOp::Attr), RawOp::Text(Name::NAME));
        lemma_counts_push(s0.push(RawOp::Attr).push(RawOp::Text(Name::NAME)), RawOp::Dyn);
        assert(count_dyn(s0) == 0);
        assert(Self::raw_spec() =~= s0.push(RawOp::Attr).push(RawOp::Text(Name::NAME)).push(
            RawOp::Dyn,
        ));
        lemma_kinds_push(s0, RawOp::Attr);
        lemma_kinds_push(s0.push(RawOp::Attr), RawOp::Text(Name::NAME));
        lemma_kinds_push(s0.push(RawOp::Attr).push(RawOp::Text(Name::NAME)), RawOp::Dyn);
        assert(dyn_kinds(s0) =~= Seq::<bool>::empty());
        assert(dyn_kinds(Self::raw_spec()) =~= seq![true]);
        assert(value_kinds(self.dynamic_spec()) =~= seq![true]);
    }

    fn push(self, dynamic: &mut DynamicValues) {
        let ghost start = dynamic@;
        let attribute = Attribute {
            name: Name::NAME,
            value: AttributeValue::Text(self.0),
            namespace: None,
            volatile: false,
        };
        dynamic.push_attribute(attribute);
        assert(dynamic@ =~= start + self.dynamic_spec());
    }
}

} // verus!
