//! Format strings: the ones that renderings are written with, and how a
//! format string reads.
//!
//! A rendering writes one argument with a format string. In a format string
//! `{}` is the place of the argument and a brace that is meant as a brace is
//! doubled, so a prefix that holds braces is escaped before it is written
//! into one. [`expand`] states how `std::fmt` reads the format strings that are
//! generated, and the lemmas here show that what is generated reads as
//! intended: a leaf as its message, a node as its prefix, a colon and its
//! cause, down a chain of any depth.

use vstd::prelude::*;
use vstd::string::*;

verus! {

/// What stands for the character `c` in a format string: a brace is doubled,
/// any other character stands for itself.
pub open spec fn escape_char(c: char) -> Seq<char> {
    if c == '{' {
        seq!['{', '{']
    } else if c == '}' {
        seq!['}', '}']
    } else {
        seq![c]
    }
}

/// `text` as it is written inside a format string, so that it reads as `text`.
pub open spec fn escape_braces(text: Seq<char>) -> Seq<char>
    decreases text.len(),
{
    if text.len() == 0 {
        Seq::empty()
    } else {
        escape_char(text[0]) + escape_braces(text.skip(1))
    }
}

/// The format string of a node's rendering: the prefix, a colon, and the place
/// of the cause.
pub open spec fn node_format(prefix: Seq<char>) -> Seq<char> {
    escape_braces(prefix) + seq![':', ' ', '{', '}']
}

/// `head` before what `tail` holds, where it holds anything.
pub open spec fn prepend(head: Seq<char>, tail: Option<Seq<char>>) -> Option<Seq<char>> {
    match tail {
        Some(t) => Some(head + t),
        None => None,
    }
}

/// How a format string reads with the arguments `args`, each already rendered:
/// `{{` and `}}` read as one brace, `{}` as the next argument, any other
/// character as itself. `None` where the string holds another use of a brace,
/// where an argument is missing, or where one is left over.
pub open spec fn expand(fmt: Seq<char>, args: Seq<Seq<char>>) -> Option<Seq<char>>
    decreases fmt.len(),
{
    if fmt.len() == 0 {
        if args.len() == 0 {
            Some(Seq::empty())
        } else {
            None
        }
    } else if fmt.len() >= 2 && fmt[0] == '{' && fmt[1] == '{' {
        prepend(seq!['{'], expand(fmt.skip(2), args))
    } else if fmt.len() >= 2 && fmt[0] == '}' && fmt[1] == '}' {
        prepend(seq!['}'], expand(fmt.skip(2), args))
    } else if fmt.len() >= 2 && fmt[0] == '{' && fmt[1] == '}' {
        if args.len() == 0 {
            None
        } else {
            prepend(args[0], expand(fmt.skip(2), args.skip(1)))
        }
    } else if fmt[0] == '{' || fmt[0] == '}' {
        None
    } else {
        prepend(seq![fmt[0]], expand(fmt.skip(1), args))
    }
}

/// Escaping goes character by character: what stands for `text` followed by
/// `c` is what stands for `text`, followed by what stands for `c`.
pub proof fn lemma_escape_push(text: Seq<char>, c: char)
    ensures
        escape_braces(text.push(c)) == escape_braces(text) + escape_char(c),
    decreases text.len(),
{
    let whole = text.push(c);
    if text.len() == 0 {
        assert(escape_braces(whole.skip(1)) =~= Seq::<char>::empty());
    } else {
        lemma_escape_push(text.skip(1), c);
        assert(whole.skip(1) =~= text.skip(1).push(c));
    }
}

/// An escaped text at the head of a format string reads as the text itself.
pub proof fn lemma_expand_escaped(text: Seq<char>, tail: Seq<char>, args: Seq<Seq<char>>)
    ensures
        expand(escape_braces(text) + tail, args) == prepend(text, expand(tail, args)),
    decreases text.len(),
{
    if text.len() > 0 {
        let c = text[0];
        let rest = text.skip(1);
        let fmt = escape_braces(text) + tail;
        let next = escape_braces(rest) + tail;
        lemma_expand_escaped(rest, tail, args);
        if c == '{' || c == '}' {
            assert(fmt.skip(2) =~= next);
        } else {
            assert(fmt.skip(1) =~= next);
        }
    }
}

/// A node renders as its prefix, a colon, and the rendering of its cause,
/// whatever characters the prefix holds.
pub proof fn lemma_node_format_reads(prefix: Seq<char>, cause: Seq<char>)
    ensures
        expand(node_format(prefix), seq![cause]) == Some(prefix + seq![':', ' '] + cause),
{
    let tail = seq![':', ' ', '{', '}'];
    let args = seq![cause];
    lemma_expand_escaped(prefix, tail, args);
    let t1 = tail.skip(1);
    let t2 = t1.skip(1);
    assert(expand(t2.skip(2), args.skip(1)) == Some(Seq::<char>::empty()));
    assert(expand(t2, args) == Some(cause + Seq::<char>::empty()));
    assert(expand(t1, args) == Some(seq![' '] + (cause + Seq::<char>::empty())));
}

/// The format string of a leaf's rendering: the place of the message, alone.
pub open spec fn leaf_format() -> Seq<char> {
    seq!['{', '}']
}

/// A leaf renders as its message and nothing else, whatever the message is: a
/// literal message as the string itself, a templated message as what the
/// template evaluates to on the leaf.
pub proof fn lemma_leaf_format_reads(message: Seq<char>)
    ensures
        expand(leaf_format(), seq![message]) == Some(message),
{
    let fmt = leaf_format();
    let args = seq![message];
    assert(expand(fmt.skip(2), args.skip(1)) == Some(Seq::<char>::empty()));
}

/// What a chain of nodes renders as: the node with the first of `prefixes`
/// holds the node with the second, and so on down to a leaf that renders as
/// `leaf`. Each node reads its own format string with the rendering of its
/// cause as the argument.
pub open spec fn chain_rendering(prefixes: Seq<Seq<char>>, leaf: Seq<char>) -> Option<Seq<char>>
    decreases prefixes.len(),
{
    if prefixes.len() == 0 {
        Some(leaf)
    } else {
        match chain_rendering(prefixes.skip(1), leaf) {
            Some(cause) => expand(node_format(prefixes[0]), seq![cause]),
            None => None,
        }
    }
}

/// The prefixes and the rendering of the leaf, joined by colons.
pub open spec fn colon_joined(prefixes: Seq<Seq<char>>, leaf: Seq<char>) -> Seq<char>
    decreases prefixes.len(),
{
    if prefixes.len() == 0 {
        leaf
    } else {
        prefixes[0] + seq![':', ' '] + colon_joined(prefixes.skip(1), leaf)
    }
}

/// A chain of nodes of any depth renders as the prefixes of its nodes, outermost
/// first, and the rendering of its leaf, joined by colons.
pub proof fn lemma_chain_reads(prefixes: Seq<Seq<char>>, leaf: Seq<char>)
    ensures
        chain_rendering(prefixes, leaf) == Some(colon_joined(prefixes, leaf)),
    decreases prefixes.len(),
{
    if prefixes.len() > 0 {
        lemma_chain_reads(prefixes.skip(1), leaf);
        lemma_node_format_reads(prefixes[0], colon_joined(prefixes.skip(1), leaf));
    }
}

/// Writes the format string of a leaf's rendering.
pub fn leaf_format_string() -> (fmt: String)
    ensures
        fmt@ == leaf_format(),
{
    let mut fmt = String::new();
    fmt.push('{');
    fmt.push('}');
    fmt
}

/// Writes `prefix` as the format string of a node's rendering.
pub fn node_format_string(prefix: &str) -> (fmt: String)
    ensures
        fmt@ == node_format(prefix@),
{
    let mut fmt = String::new();
    for c in it: prefix.chars()
        invariant
            it.seq() == prefix@,
            fmt@ == escape_braces(prefix@.take(it.index() as int)),
    {
        proof {
            lemma_escape_push(prefix@.take(it.index() as int), c);
            assert(prefix@.take(it.index() as int).push(c) =~= prefix@.take(it.index() + 1));
        }
        if c == '{' {
            fmt.push('{');
            fmt.push('{');
        } else if c == '}' {
            fmt.push('}');
            fmt.push('}');
        } else {
            fmt.push(c);
        }
    }
    assert(prefix@.take(prefix@.len() as int) =~= prefix@);
    fmt.push(':');
    fmt.push(' ');
    fmt.push('{');
    fmt.push('}');
    fmt
}

} // verus!
