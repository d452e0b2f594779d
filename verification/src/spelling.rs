//! How a node declaration is spelled, and the proof that the parser reads
//! exactly the spellings.

use crate::grammar::{parsed_node, read_path, read_variants, ErrorNodeView, Expected};
use crate::token::TokenView;
use vstd::prelude::*;

verus! {

/// The tokens of the segments that follow the first one in a type reference:
/// `::` and an identifier for each.
pub open spec fn tail_tokens(rest: Seq<Seq<char>>) -> Seq<TokenView>
    decreases rest.len(),
{
    if rest.len() == 0 {
        Seq::empty()
    } else {
        seq![TokenView::PathSep, TokenView::Ident(rest[0])] + tail_tokens(rest.skip(1))
    }
}

/// The tokens of a type reference: its segments, joined by `::`.
pub open spec fn path_tokens(path: Seq<Seq<char>>) -> Seq<TokenView>
    recommends
        path.len() >= 1,
{
    seq![TokenView::Ident(path[0])] + tail_tokens(path.skip(1))
}

/// The tokens of a list of variants: the type references, separated by
/// commas, with a comma after the last one where `trailing` is set.
pub open spec fn list_tokens(variants: Seq<Seq<Seq<char>>>, trailing: bool) -> Seq<TokenView>
    decreases variants.len(),
{
    if variants.len() == 0 {
        Seq::empty()
    } else if variants.len() == 1 && !trailing {
        path_tokens(variants[0])
    } else {
        path_tokens(variants[0]) + seq![TokenView::Punct(',')] + list_tokens(
            variants.skip(1),
            trailing,
        )
    }
}

/// The tokens of the message prefix: none where there is no prefix.
pub open spec fn prefix_tokens(message_prefix: Option<Seq<char>>) -> Seq<TokenView> {
    match message_prefix {
        Some(prefix) => seq![TokenView::Punct('='), TokenView::Str(prefix)],
        None => Seq::empty(),
    }
}

/// The tokens of what stands before the list of variants.
pub open spec fn head_tokens(is_pub: bool, node_name: Seq<char>) -> Seq<TokenView> {
    if is_pub {
        seq![
            TokenView::Keyword("pub"@),
            TokenView::Keyword("type"@),
            TokenView::Ident(node_name),
            TokenView::Punct('<'),
        ]
    } else {
        seq![TokenView::Keyword("type"@), TokenView::Ident(node_name), TokenView::Punct('<')]
    }
}

/// The tokens that spell the declaration `node`, with or without a comma
/// after the last variant.
pub open spec fn spelling(node: ErrorNodeView, trailing: bool) -> Seq<TokenView> {
    head_tokens(node.is_pub, node.node_name) + list_tokens(node.variants, trailing)
        + seq![TokenView::Punct('>')] + prefix_tokens(node.message_prefix)
}

proof fn lemma_read_tail(
    tokens: Seq<TokenView>,
    at: int,
    path: Seq<Seq<char>>,
    rest: Seq<Seq<char>>,
    post: Seq<TokenView>,
)
    requires
        0 <= at <= tokens.len(),
        tokens.skip(at) == tail_tokens(rest) + post,
        post.len() == 0 || post[0] != TokenView::PathSep,
    ensures
        read_path(tokens, at, path) == Ok::<(Seq<Seq<char>>, int), (int, Expected)>(
            (path + rest, tokens.len() - post.len()),
        ),
    decreases rest.len(),
{
    let s = tokens.skip(at);
    if rest.len() > 0 {
        let step = seq![TokenView::PathSep, TokenView::Ident(rest[0])];
        assert(s =~= step + (tail_tokens(rest.skip(1)) + post));
        assert(tokens[at] == s[0]);
        assert(tokens[at + 1] == s[1]);
        assert(s.skip(2) =~= tail_tokens(rest.skip(1)) + post);
        assert(tokens.skip(at + 2) =~= s.skip(2));
        lemma_read_tail(tokens, at + 2, path.push(rest[0]), rest.skip(1), post);
        assert(path.push(rest[0]) + rest.skip(1) =~= path + rest);
    }
}

proof fn lemma_read_list(
    tokens: Seq<TokenView>,
    at: int,
    read: Seq<Seq<Seq<char>>>,
    variants: Seq<Seq<Seq<char>>>,
    trailing: bool,
    post: Seq<TokenView>,
)
    requires
        0 <= at <= tokens.len(),
        tokens.skip(at) == list_tokens(variants, trailing) + seq![TokenView::Punct('>')] + post,
        forall|i: int| 0 <= i < variants.len() ==> (#[trigger] variants[i]).len() >= 1,
    ensures
        read_variants(tokens, at, read) == Ok::<(Seq<Seq<Seq<char>>>, int), (int, Expected)>(
            (read + variants, tokens.len() - post.len()),
        ),
    decreases variants.len(),
{
    let s = tokens.skip(at);
    let close = seq![TokenView::Punct('>')];
    if variants.len() == 0 {
        assert(tokens[at] == s[0]);
    } else {
        let first = variants[0];
        let tail = tail_tokens(first.skip(1));
        let last = variants.len() == 1 && !trailing;
        let after: Seq<TokenView> = if last {
            close + post
        } else {
            seq![TokenView::Punct(',')] + (list_tokens(variants.skip(1), trailing) + close + post)
        };
        assert(s =~= seq![TokenView::Ident(first[0])] + (tail + after));
        assert(tokens[at] == s[0]);
        assert(s.skip(1) =~= tail + after);
        assert(tokens.skip(at + 1) =~= s.skip(1));
        lemma_read_tail(tokens, at + 1, seq![first[0]], first.skip(1), after);
        assert(seq![first[0]] + first.skip(1) =~= first);
        let end = tokens.len() - after.len();
        assert(tokens.skip(end) =~= after) by {
            assert(tokens.skip(at + 1).skip(tail.len() as int) =~= after);
        }
        if last {
            assert(read.push(first) =~= read + variants);
        } else {
            assert(tokens.skip(end + 1) =~= list_tokens(variants.skip(1), trailing) + close + post)
                by {
                assert(tokens.skip(end + 1) =~= tokens.skip(end).skip(1));
            }
            lemma_read_list(tokens, end + 1, read.push(first), variants.skip(1), trailing, post);
            assert(read.push(first) + variants.skip(1) =~= read + variants);
        }
    }
}

/// Acceptance: every spelling of a declaration parses, and to that
/// declaration, with or without a comma after the last variant.
pub proof fn lemma_spelling_parses(node: ErrorNodeView, trailing: bool)
    requires
        node.well_formed(),
    ensures
        parsed_node(spelling(node, trailing)) == Ok::<ErrorNodeView, (int, Expected)>(node),
{
    reveal_strlit("pub");
    reveal_strlit("type");
    let tokens = spelling(node, trailing);
    let list = list_tokens(node.variants, trailing);
    let close = seq![TokenView::Punct('>')];
    let post = prefix_tokens(node.message_prefix);
    let start: int = if node.is_pub {
        1
    } else {
        0
    };
    assert("pub"@.len() != "type"@.len());
    assert(tokens.skip(start + 3) =~= list + close + post);
    lemma_read_list(tokens, start + 3, Seq::empty(), node.variants, trailing, post);
    let end = tokens.len() - post.len();
    assert(tokens.skip(end) =~= post);
}

pub proof fn lemma_path_spelled(tokens: Seq<TokenView>, at: int, path: Seq<Seq<char>>)
    requires
        0 <= at <= tokens.len(),
        read_path(tokens, at, path) is Ok,
    ensures
        ({
            let (whole, end) = read_path(tokens, at, path)->Ok_0;
            &&& at <= end <= tokens.len()
            &&& whole.len() >= path.len()
            &&& whole.take(path.len() as int) == path
            &&& tokens.subrange(at, end) == tail_tokens(whole.skip(path.len() as int))
        }),
    decreases tokens.len() - at,
{
    let whole = read_path(tokens, at, path)->Ok_0.0;
    if at < tokens.len() && tokens[at] == TokenView::PathSep {
        let word = tokens[at + 1]->Ident_0;
        let longer = path.push(word);
        lemma_path_spelled(tokens, at + 2, longer);
        assert(whole[path.len() as int] == whole.take(longer.len() as int)[path.len() as int]);
        let rest = whole.skip(path.len() as int);
        assert(rest.skip(1) =~= whole.skip(longer.len() as int));
    }
}

pub proof fn lemma_list_spelled(tokens: Seq<TokenView>, at: int, read: Seq<Seq<Seq<char>>>) -> (trailing:
    bool)
    requires
        0 <= at <= tokens.len(),
        read_variants(tokens, at, read) is Ok,
    ensures
        ({
            let (all, end) = read_variants(tokens, at, read)->Ok_0;
            let found = all.skip(read.len() as int);
            &&& at < end <= tokens.len()
            &&& all.len() >= read.len()
            &&& all.take(read.len() as int) == read
            &&& tokens.subrange(at, end) == list_tokens(found, trailing) + seq![
                TokenView::Punct('>'),
            ]
            &&& forall|i: int| 0 <= i < found.len() ==> (#[trigger] found[i]).len() >= 1
        }),
    decreases tokens.len() - at,
{
    let (all, end) = read_variants(tokens, at, read)->Ok_0;
    let found = all.skip(read.len() as int);
    if tokens[at] == TokenView::Punct('>') {
        false
    } else {
        let word = tokens[at]->Ident_0;
        let (path, stop) = read_path(tokens, at + 1, seq![word])->Ok_0;
        lemma_path_spelled(tokens, at + 1, seq![word]);
        assert(path[0] == path.take(1)[0]);
        let longer = read.push(path);
        let spelled = path_tokens(path);
        assert(tokens.subrange(at, stop) =~= spelled);
        if tokens[stop] == TokenView::Punct(',') {
            let inner = lemma_list_spelled(tokens, stop + 1, longer);
            let later = all.skip(longer.len() as int);
            assert(all[read.len() as int] == all.take(longer.len() as int)[read.len() as int]);
            assert(found.skip(1) =~= later);
            let trailing = if later.len() == 0 {
                true
            } else {
                inner
            };
            assert(list_tokens(later, trailing) == list_tokens(later, inner));
            assert(tokens.subrange(at, end) =~= spelled + seq![TokenView::Punct(',')]
                + tokens.subrange(stop + 1, end));
            assert forall|i: int| 0 <= i < found.len() implies (#[trigger] found[i]).len()
                >= 1 by {
                if i > 0 {
                    assert(found[i] == later[i - 1]);
                }
            }
            trailing
        } else {
            false
        }
    }
}

/// Rejection: whatever parses is a spelling of the declaration that it parses
/// to. So a sequence of tokens that spells no declaration is refused.
pub proof fn lemma_parsed_is_spelled(tokens: Seq<TokenView>) -> (trailing: bool)
    requires
        parsed_node(tokens) is Ok,
    ensures
        parsed_node(tokens)->Ok_0.well_formed(),
        tokens == spelling(parsed_node(tokens)->Ok_0, trailing),
{
    let node = parsed_node(tokens)->Ok_0;
    let start: int = if node.is_pub {
        1
    } else {
        0
    };
    let trailing = lemma_list_spelled(tokens, start + 3, Seq::empty());
    let (variants, end) = read_variants(tokens, start + 3, Seq::empty())->Ok_0;
    assert(variants.skip(0) =~= variants);
    assert(tokens =~= tokens.subrange(0, start + 3) + tokens.subrange(start + 3, end)
        + tokens.subrange(end, tokens.len() as int));
    trailing
}

} // verus!
