//! The items that are generated for a node, as text.

use crate::format::{expand, lemma_node_format_reads, node_format, node_format_string};
use crate::grammar::{ErrorNodeView, TypeRef};
use crate::model::{
    display_prefix, lemma_variant_is_positional, model_of, NodeModel, NodeModelView, VariantView,
};
use crate::tag::variant_tag;
use vstd::prelude::*;
use vstd::string::*;

verus! {

/// The text of the string literal that proc-macro2 writes for the string
/// `value`: the string between double quotes, with escapes where it needs them.
pub uninterp spec fn string_literal(value: Seq<char>) -> Seq<char>;

/// `proc_macro2::Literal::string`, then the literal's `to_string`: the text of
/// a string literal that denotes `value`.
#[verifier::external_body]
pub(crate) fn quote_string(value: &str) -> (literal: String)
    ensures
        literal@ == string_literal(value@),
{
    proc_macro2::Literal::string(value).to_string()
}

/// The parts, one after the other.
pub open spec fn concat(parts: Seq<Seq<char>>) -> Seq<char>
    decreases parts.len(),
{
    if parts.len() == 0 {
        Seq::empty()
    } else {
        concat(parts.drop_last()) + parts.last()
    }
}

/// A type reference as text: its segments, joined by `::`.
pub open spec fn type_text(path: Seq<Seq<char>>) -> Seq<char>
    decreases path.len(),
{
    if path.len() == 0 {
        Seq::empty()
    } else if path.len() == 1 {
        path[0]
    } else {
        type_text(path.drop_last()) + "::"@ + path.last()
    }
}

/// The line of the sum type for one variant: the tag, holding one value of the
/// variant's type.
pub open spec fn enum_line(variant: VariantView) -> Seq<char> {
    "    "@ + variant.tag + "("@ + type_text(variant.inner) + "),\n"@
}

/// The lines of the sum type, one for each variant, in order.
pub open spec fn enum_lines(model: NodeModelView) -> Seq<Seq<char>> {
    Seq::new(model.variants.len(), |i: int| enum_line(model.variants[i]))
}

/// The sum type of a node: one variant for each entry of the model.
pub open spec fn enum_text(model: NodeModelView) -> Seq<char> {
    "#[derive(Debug)]\n"@ + (if model.is_pub {
        "pub enum "@
    } else {
        "enum "@
    }) + model.name + " {\n"@ + concat(enum_lines(model)) + "}\n"@
}

/// The rendering of the item `name`: it writes `argument` with the format
/// string that the string literal `format_literal` denotes.
pub open spec fn display_text(
    name: Seq<char>,
    format_literal: Seq<char>,
    argument: Seq<char>,
) -> Seq<char> {
    "impl std::fmt::Display for "@ + name + " {\n"@
        + "    fn fmt(&self, f: &mut std::fmt::Formatter<'_>) -> std::fmt::Result {\n"@
        + "        write!(f, "@ + format_literal + ", "@ + argument + ")\n"@ + "    }\n"@ + "}\n"@
}

/// The cause of a node, as the argument of its rendering. `expect_literal` is
/// the string literal of what is said should the node have no cause.
pub open spec fn cause_text(expect_literal: Seq<char>) -> Seq<char> {
    "&self.source().expect("@ + expect_literal + ")"@
}

/// What the rendering says of a node that has no cause.
pub open spec fn expect_message(name: Seq<char>) -> Seq<char> {
    name + " always has a source"@
}

/// The rendering of a node: its prefix, a colon, and the rendering of its
/// cause.
pub open spec fn display_impl_text(model: NodeModelView) -> Seq<char> {
    display_text(
        model.name,
        string_literal(node_format(display_prefix(model))),
        cause_text(string_literal(expect_message(model.name))),
    )
}

/// What a node renders as when its cause renders as `cause`: how the format
/// string of its rendering reads with that argument.
pub open spec fn node_rendering(model: NodeModelView, cause: Seq<char>) -> Option<Seq<char>> {
    expand(node_format(display_prefix(model)), seq![cause])
}

/// A node renders as its message prefix, or its name where it has no prefix,
/// then a colon, then the rendering of its cause.
pub proof fn lemma_node_renders(model: NodeModelView, cause: Seq<char>)
    ensures
        node_rendering(model, cause) == Some(display_prefix(model) + seq![':', ' '] + cause),
{
    lemma_node_format_reads(display_prefix(model), cause);
}

/// The arm of the cause accessor for one variant: the value that the variant
/// holds is the cause.
pub open spec fn source_arm(variant: VariantView) -> Seq<char> {
    "            Self::"@ + variant.tag + "(err) => Some(err),\n"@
}

/// The arms of the cause accessor, one for each variant, in order.
pub open spec fn source_arms(model: NodeModelView) -> Seq<Seq<char>> {
    Seq::new(model.variants.len(), |i: int| source_arm(model.variants[i]))
}

/// The cause accessor of a node: whichever variant is held, its value is the
/// cause.
pub open spec fn error_impl_text(model: NodeModelView) -> Seq<char> {
    "impl std::error::Error for "@ + model.name + " {\n"@
        + "    fn source(&self) -> Option<&(dyn std::error::Error + 'static)> {\n"@
        + "        match self {\n"@ + concat(source_arms(model)) + "        }\n"@ + "    }\n"@
        + "}\n"@
}

/// The conversion constructor of one variant: from a value of the variant's
/// type to the node that holds it under the variant's tag.
pub open spec fn from_impl(name: Seq<char>, variant: VariantView) -> Seq<char> {
    "impl From<"@ + type_text(variant.inner) + "> for "@ + name + " {\n"@ + "    fn from(value: "@
        + type_text(variant.inner) + ") -> Self {\n"@ + "        Self::"@ + variant.tag
        + "(value)\n"@ + "    }\n"@ + "}\n"@
}

/// The conversion constructors, one for each variant, in order.
pub open spec fn from_impls(model: NodeModelView) -> Seq<Seq<char>> {
    Seq::new(model.variants.len(), |i: int| from_impl(model.name, model.variants[i]))
}

/// The conversion constructors of a node.
pub open spec fn from_impls_text(model: NodeModelView) -> Seq<char> {
    concat(from_impls(model))
}

/// All that is generated for a node: the sum type, the rendering, the cause
/// accessor and the conversion constructors, in this order.
pub open spec fn node_text(model: NodeModelView) -> Seq<char> {
    enum_text(model) + display_impl_text(model) + error_impl_text(model) + from_impls_text(model)
}

/// For the type declared at each position, the sum type has one variant that
/// holds it, under the tag of that position; the conversion constructor from
/// that type builds that variant; the cause accessor has one arm for that
/// variant, which hands out what the variant holds; and no other variant has
/// that tag. So the cause of a node built from a value is that value.
pub proof fn lemma_constructor_meets_cause(node: ErrorNodeView, i: int)
    requires
        0 <= i < node.variants.len(),
    ensures
        ({
            let model = model_of(node);
            let variant = VariantView { tag: variant_tag(i as nat), inner: node.variants[i] };
            &&& model.variants.len() == node.variants.len()
            &&& enum_lines(model)[i] == enum_line(variant)
            &&& from_impls(model)[i] == from_impl(node.node_name, variant)
            &&& source_arms(model)[i] == source_arm(variant)
            &&& forall|j: int|
                0 <= j < node.variants.len() && j != i ==> (#[trigger] model.variants[j]).tag
                    != variant.tag
        }),
{
    lemma_variant_is_positional(node, i);
}

proof fn lemma_concat_step(parts: Seq<Seq<char>>, i: int)
    requires
        0 <= i < parts.len(),
    ensures
        concat(parts.take(i + 1)) == concat(parts.take(i)) + parts[i],
{
    assert(parts.take(i + 1).drop_last() =~= parts.take(i));
}

/// Writes a type reference as text.
pub fn type_ref_text(path: &TypeRef) -> (text: String)
    ensures
        text@ == type_text(path.deep_view()),
{
    let ghost all = path.deep_view();
    let mut text = String::new();
    let mut i: usize = 0;
    while i < path.segments.len()
        invariant
            i <= path.segments.len(),
            all == path.deep_view(),
            text@ == type_text(all.take(i as int)),
        decreases path.segments.len() - i,
    {
        assert(all.take(i + 1).drop_last() =~= all.take(i as int));
        if i > 0 {
            text.append("::");
        }
        text.append(path.segments[i].as_str());
        i = i + 1;
    }
    assert(all.take(i as int) =~= all);
    text
}

/// Writes the sum type of a node.
pub fn error_node_enum(model: &NodeModel) -> (text: String)
    ensures
        text@ == enum_text(model@),
{
    let ghost lines = enum_lines(model@);
    let mut text = String::from_str("#[derive(Debug)]\n");
    text.append(
        if model.is_pub {
            "pub enum "
        } else {
            "enum "
        },
    );
    text.append(model.name.as_str());
    text.append(" {\n");
    let ghost head = text@;
    let mut i: usize = 0;
    while i < model.variants.len()
        invariant
            i <= model.variants.len(),
            lines == enum_lines(model@),
            text@ == head + concat(lines.take(i as int)),
        decreases model.variants.len() - i,
    {
        let variant = &model.variants[i];
        let inner = type_ref_text(&variant.inner);
        proof {
            lemma_concat_step(lines, i as int);
        }
        let ghost before = text@;
        text.append("    ");
        text.append(variant.tag.as_str());
        text.append("(");
        text.append(inner.as_str());
        text.append("),\n");
        assert(text@ =~= before + enum_line(variant.deep_view()));
        i = i + 1;
    }
    assert(lines.take(i as int) =~= lines);
    text.append("}\n");
    text
}

/// Writes the rendering of the item `name`: `argument`, written with the
/// format string that `format_literal` denotes.
pub fn display_impl(name: &str, format_literal: &str, argument: &str) -> (text: String)
    ensures
        text@ == display_text(name@, format_literal@, argument@),
{
    let mut text = String::from_str("impl std::fmt::Display for ");
    text.append(name);
    text.append(" {\n");
    text.append("    fn fmt(&self, f: &mut std::fmt::Formatter<'_>) -> std::fmt::Result {\n");
    text.append("        write!(f, ");
    text.append(format_literal);
    text.append(", ");
    text.append(argument);
    text.append(")\n");
    text.append("    }\n");
    text.append("}\n");
    text
}

/// Writes the cause of a node as the argument of its rendering.
pub fn cause_argument(expect_literal: &str) -> (text: String)
    ensures
        text@ == cause_text(expect_literal@),
{
    let mut text = String::from_str("&self.source().expect(");
    text.append(expect_literal);
    text.append(")");
    text
}

/// Writes the rendering of a node: `<prefix>: <rendered cause>`, where the
/// prefix is the message prefix of the node if it has one, else its name.
pub fn error_node_display_impl(model: &NodeModel) -> (text: String)
    ensures
        text@ == display_impl_text(model@),
{
    let format = match &model.message_prefix {
        Some(prefix) => node_format_string(prefix.as_str()),
        None => node_format_string(model.name.as_str()),
    };
    let mut expect = model.name.clone();
    expect.append(" always has a source");
    let format_literal = quote_string(format.as_str());
    let expect_literal = quote_string(expect.as_str());
    let cause = cause_argument(expect_literal.as_str());
    display_impl(model.name.as_str(), format_literal.as_str(), cause.as_str())
}

/// Writes the cause accessor of a node.
pub fn error_node_error_impl(model: &NodeModel) -> (text: String)
    ensures
        text@ == error_impl_text(model@),
{
    let ghost arms = source_arms(model@);
    let mut text = String::from_str("impl std::error::Error for ");
    text.append(model.name.as_str());
    text.append(" {\n");
    text.append("    fn source(&self) -> Option<&(dyn std::error::Error + 'static)> {\n");
    text.append("        match self {\n");
    let ghost head = text@;
    let mut i: usize = 0;
    while i < model.variants.len()
        invariant
            i <= model.variants.len(),
            arms == source_arms(model@),
            text@ == head + concat(arms.take(i as int)),
        decreases model.variants.len() - i,
    {
        let variant = &model.variants[i];
        proof {
            lemma_concat_step(arms, i as int);
        }
        text.append("            Self::");
        text.append(variant.tag.as_str());
        text.append("(err) => Some(err),\n");
        i = i + 1;
    }
    assert(arms.take(i as int) =~= arms);
    text.append("        }\n");
    text.append("    }\n");
    text.append("}\n");
    text
}

/// Writes the conversion constructors of a node, one for each variant.
pub fn error_node_from_impls(model: &NodeModel) -> (text: String)
    ensures
        text@ == from_impls_text(model@),
{
    let ghost impls = from_impls(model@);
    let mut text = String::new();
    let mut i: usize = 0;
    while i < model.variants.len()
        invariant
            i <= model.variants.len(),
            impls == from_impls(model@),
            text@ == concat(impls.take(i as int)),
        decreases model.variants.len() - i,
    {
        let variant = &model.variants[i];
        let inner = type_ref_text(&variant.inner);
        proof {
            lemma_concat_step(impls, i as int);
        }
        text.append("impl From<");
        text.append(inner.as_str());
        text.append("> for ");
        text.append(model.name.as_str());
        text.append(" {\n");
        text.append("    fn from(value: ");
        text.append(inner.as_str());
        text.append(") -> Self {\n");
        text.append("        Self::");
        text.append(variant.tag.as_str());
        text.append("(value)\n");
        text.append("    }\n");
        text.append("}\n");
        i = i + 1;
    }
    assert(impls.take(i as int) =~= impls);
    text
}

/// Writes all that is generated for a node.
pub fn node_items(model: &NodeModel) -> (text: String)
    ensures
        text@ == node_text(model@),
{
    let mut text = error_node_enum(model);
    let display = error_node_display_impl(model);
    let error = error_node_error_impl(model);
    let froms = error_node_from_impls(model);
    text.append(display.as_str());
    text.append(error.as_str());
    text.append(froms.as_str());
    text
}

} // verus!
