//! The model of a node: its variants, each with the tag of its position.

use crate::grammar::{ErrorNode, ErrorNodeView, TypeRef};
use crate::tag::{format_variant_name, lemma_variant_tag_injective, variant_tag};
use vstd::prelude::*;
use vstd::string::*;

verus! {

/// A variant of a node: its tag and the type of the error that it holds.
#[derive(Clone, Debug, PartialEq, Eq)]
pub struct Variant {
    /// The name of the variant in the sum type.
    pub tag: String,
    /// The type of the error that the variant holds.
    pub inner: TypeRef,
}

/// The mathematical value of a [`Variant`].
pub struct VariantView {
    pub tag: Seq<char>,
    pub inner: Seq<Seq<char>>,
}

impl DeepView for Variant {
    type V = VariantView;

    open spec fn deep_view(&self) -> VariantView {
        VariantView { tag: self.tag@, inner: self.inner.deep_view() }
    }
}

/// The model of a node: what is generated is a function of this alone.
#[derive(Clone, Debug, PartialEq, Eq)]
pub struct NodeModel {
    /// Whether the sum type is `pub`.
    pub is_pub: bool,
    /// The name of the sum type.
    pub name: String,
    /// The variants of the sum type, in the order declared.
    pub variants: Vec<Variant>,
    /// What the node renders with in place of its name, where it is given.
    pub message_prefix: Option<String>,
}

/// The mathematical value of a [`NodeModel`].
pub struct NodeModelView {
    pub is_pub: bool,
    pub name: Seq<char>,
    pub variants: Seq<VariantView>,
    pub message_prefix: Option<Seq<char>>,
}

impl View for NodeModel {
    type V = NodeModelView;

    open spec fn view(&self) -> NodeModelView {
        NodeModelView {
            is_pub: self.is_pub,
            name: self.name@,
            variants: self.variants.deep_view(),
            message_prefix: match self.message_prefix {
                Some(prefix) => Some(prefix@),
                None => None,
            },
        }
    }
}

/// The variants of a model: the declared types in their order, each with the
/// tag of its position.
pub open spec fn tagged(variants: Seq<Seq<Seq<char>>>) -> Seq<VariantView> {
    Seq::new(
        variants.len(),
        |i: int| VariantView { tag: variant_tag(i as nat), inner: variants[i] },
    )
}

/// The model of the declaration `node`.
pub open spec fn model_of(node: ErrorNodeView) -> NodeModelView {
    NodeModelView {
        is_pub: node.is_pub,
        name: node.node_name,
        variants: tagged(node.variants),
        message_prefix: node.message_prefix,
    }
}

/// The prefix that a node renders with: its message prefix where it has one,
/// else its own name.
pub open spec fn display_prefix(model: NodeModelView) -> Seq<char> {
    match model.message_prefix {
        Some(prefix) => prefix,
        None => model.name,
    }
}

/// The variant at each position holds the type declared at that position under
/// the tag of that position, and no other variant has that tag. So the
/// constructor made for the type at position `i` builds the one variant that
/// the cause accessor's arm for position `i` matches, and the accessor hands
/// out the value that the constructor was given.
pub proof fn lemma_variant_is_positional(node: ErrorNodeView, i: int)
    requires
        0 <= i < node.variants.len(),
    ensures
        model_of(node).variants.len() == node.variants.len(),
        model_of(node).variants[i].inner == node.variants[i],
        model_of(node).variants[i].tag == variant_tag(i as nat),
        forall|j: int|
            0 <= j < node.variants.len() && j != i ==> (#[trigger] model_of(node).variants[j]).tag
                != model_of(node).variants[i].tag,
{
    assert forall|j: int| 0 <= j < node.variants.len() && j != i implies (#[trigger] model_of(
        node,
    ).variants[j]).tag != model_of(node).variants[i].tag by {
        if variant_tag(j as nat) == variant_tag(i as nat) {
            lemma_variant_tag_injective(j as nat, i as nat);
        }
    }
}

/// Tags go by position alone: two declarations with as many variants give
/// them the same tags in the same order, whatever the types are and in
/// whatever order they stand.
pub proof fn lemma_tags_ignore_types(node: ErrorNodeView, other: ErrorNodeView, i: int)
    requires
        node.variants.len() == other.variants.len(),
        0 <= i < node.variants.len(),
    ensures
        model_of(node).variants[i].tag == model_of(other).variants[i].tag,
{
}

impl NodeModel {
    /// Builds the model of a declaration: tags go by position.
    pub fn new(node: ErrorNode) -> (model: NodeModel)
        ensures
            model@ == model_of(node@),
    {
        let ghost declared = node.variants.deep_view();
        let ErrorNode { is_pub, node_name, variants: types, message_prefix } = node;
        let ghost items = types@;
        assert(items.len() == types.len());
        let mut variants: Vec<Variant> = Vec::new();
        let mut index: usize = 0;
        for inner in it: types
            invariant
                index == it.index(),
                it.seq() == items,
                items.len() <= usize::MAX,
                declared.len() == items.len(),
                forall|k: int| 0 <= k < declared.len() ==> declared[k] == items[k].deep_view(),
                variants.deep_view() == tagged(declared.take(index as int)),
        {
            let ghost before = variants.deep_view();
            let tag = format_variant_name(index);
            variants.push(Variant { tag, inner });
            assert(variants.deep_view() =~= before.push(
                VariantView { tag: variant_tag(index as nat), inner: declared[index as int] },
            ));
            index = index + 1;
        }
        assert(declared.take(index as int) =~= declared);
        NodeModel { is_pub, name: node_name, variants, message_prefix }
    }
}

} // verus!
