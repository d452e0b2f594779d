//! Where a declaration goes wrong: the place that the parser reports is the
//! first token at which the tokens stop being the beginning of a declaration.

use crate::grammar::{
    lemma_read_path_advances, lemma_read_variants_bounds, parsed_node, read_path, read_prefix, read_variants, ErrorNodeView,
    Expected,
};
use crate::spelling::{
    head_tokens, lemma_list_spelled, lemma_path_spelled, lemma_spelling_parses, list_tokens,
    path_tokens, prefix_tokens, spelling, tail_tokens,
};
use crate::token::TokenView;
use vstd::prelude::*;

verus! {

/// Whether some declaration is spelled by tokens that begin with `tokens`.
pub open spec fn begins_declaration(tokens: Seq<TokenView>) -> bool {
    exists|node: ErrorNodeView, trailing: bool|
        node.well_formed() && tokens.is_prefix_of(#[trigger] spelling(node, trailing))
}

proof fn lemma_path_local(
    a: Seq<TokenView>,
    b: Seq<TokenView>,
    at: int,
    path: Seq<Seq<char>>,
    p: int,
)
    requires
        0 <= at <= a.len(),
        0 <= p < a.len(),
        p < b.len(),
        forall|k: int| 0 <= k <= p ==> a[k] == b[k],
        match read_path(a, at, path) {
            Ok((_, end)) => end <= p,
            Err((q, _)) => q <= p,
        },
    ensures
        read_path(b, at, path) == read_path(a, at, path),
    decreases a.len() - at,
{
    lemma_read_path_advances(a, at, path);
    if at < a.len() && a[at] == TokenView::PathSep {
        if at + 1 < a.len() && a[at + 1] is Ident {
            lemma_read_path_advances(a, at + 2, path.push(a[at + 1]->Ident_0));
            lemma_path_local(a, b, at + 2, path.push(a[at + 1]->Ident_0), p);
        }
    }
}

proof fn lemma_list_local(
    a: Seq<TokenView>,
    b: Seq<TokenView>,
    at: int,
    read: Seq<Seq<Seq<char>>>,
    p: int,
)
    requires
        0 <= at <= a.len(),
        0 <= p < a.len(),
        p < b.len(),
        forall|k: int| 0 <= k <= p ==> a[k] == b[k],
        match read_variants(a, at, read) {
            Ok((_, end)) => end <= p + 1,
            Err((q, _)) => q <= p,
        },
    ensures
        read_variants(b, at, read) == read_variants(a, at, read),
    decreases a.len() - at,
{
    lemma_read_variants_bounds(a, at, read);
    if at < a.len() && a[at] != TokenView::Punct('>') && a[at] is Ident {
        let first = seq![a[at]->Ident_0];
        lemma_read_path_advances(a, at + 1, first);
        match read_path(a, at + 1, first) {
            Err(e) => {
                lemma_path_local(a, b, at + 1, first, p);
            },
            Ok((path, end)) => {
                if end < a.len() && a[end] == TokenView::Punct(',') {
                    lemma_read_variants_bounds(a, end + 1, read.push(path));
                }
                lemma_path_local(a, b, at + 1, first, p);
                if end < a.len() && a[end] == TokenView::Punct(',') {
                    lemma_list_local(a, b, end + 1, read.push(path), p);
                }
            },
        }
    }
}

/// The verdict on a token depends on the tokens up to it alone: tokens that
/// go wrong at a place go wrong there, and for the same reason, whatever
/// follows that place.
pub proof fn lemma_error_is_local(a: Seq<TokenView>, b: Seq<TokenView>)
    requires
        parsed_node(a) is Err,
        parsed_node(a)->Err_0.0 < a.len(),
        parsed_node(a)->Err_0.0 < b.len(),
        forall|k: int| 0 <= k <= parsed_node(a)->Err_0.0 ==> a[k] == b[k],
    ensures
        parsed_node(b) == parsed_node(a),
{
    let p = parsed_node(a)->Err_0.0;
    let is_pub = a.len() > 0 && a[0] == TokenView::Keyword("pub"@);
    let start: int = if is_pub {
        1
    } else {
        0
    };
    if start < a.len() && a[start] == TokenView::Keyword("type"@) && start + 1 < a.len() && a[start
        + 1] is Ident && start + 2 < a.len() && a[start + 2] == TokenView::Punct('<') {
        lemma_read_variants_bounds(a, start + 3, Seq::empty());
        lemma_list_local(a, b, start + 3, Seq::empty(), p);
    }
}

proof fn lemma_tail_push(rest: Seq<Seq<char>>, last: Seq<char>)
    ensures
        tail_tokens(rest.push(last)) == tail_tokens(rest) + seq![
            TokenView::PathSep,
            TokenView::Ident(last),
        ],
    decreases rest.len(),
{
    let whole = rest.push(last);
    if rest.len() == 0 {
        assert(whole.skip(1) =~= Seq::<Seq<char>>::empty());
        assert(tail_tokens(whole.skip(1)) =~= Seq::<TokenView>::empty());
    } else {
        lemma_tail_push(rest.skip(1), last);
        assert(whole.skip(1) =~= rest.skip(1).push(last));
    }
}

/// Where a type reference goes wrong, the tokens that were read are segments
/// and a path separator that waits for the next segment.
proof fn lemma_path_broken(tokens: Seq<TokenView>, at: int, path: Seq<Seq<char>>) -> (extra: Seq<
    Seq<char>,
>)
    requires
        0 <= at <= tokens.len(),
        read_path(tokens, at, path) is Err,
    ensures
        ({
            let q = read_path(tokens, at, path)->Err_0.0;
            &&& at < q <= tokens.len()
            &&& tokens.subrange(at, q) == tail_tokens(extra) + seq![TokenView::PathSep]
        }),
    decreases tokens.len() - at,
{
    let q = read_path(tokens, at, path)->Err_0.0;
    if at + 1 < tokens.len() && tokens[at + 1] is Ident {
        let word = tokens[at + 1]->Ident_0;
        let later = lemma_path_broken(tokens, at + 2, path.push(word));
        let extra = seq![word] + later;
        assert(extra.skip(1) =~= later);
        assert(tokens.subrange(at, q) =~= seq![TokenView::PathSep, TokenView::Ident(word)]
            + tokens.subrange(at + 2, q));
        assert(tokens.subrange(at, q) =~= tail_tokens(extra) + seq![TokenView::PathSep]);
        extra
    } else {
        assert(tokens.subrange(at, q) =~= seq![TokenView::PathSep]);
        assert(tail_tokens(Seq::<Seq<char>>::empty()) + seq![TokenView::PathSep] =~= seq![
            TokenView::PathSep,
        ]);
        Seq::empty()
    }
}

/// Where a list of variants goes wrong, the tokens that were read begin the
/// list of some variants.
proof fn lemma_list_broken(tokens: Seq<TokenView>, at: int, read: Seq<Seq<Seq<char>>>) -> (r: (
    Seq<Seq<Seq<char>>>,
    bool,
))
    requires
        0 <= at <= tokens.len(),
        read_variants(tokens, at, read) is Err,
    ensures
        ({
            let q = read_variants(tokens, at, read)->Err_0.0;
            &&& at <= q <= tokens.len()
            &&& tokens.subrange(at, q).is_prefix_of(
                list_tokens(r.0, r.1) + seq![TokenView::Punct('>')],
            )
            &&& forall|i: int| 0 <= i < r.0.len() ==> (#[trigger] r.0[i]).len() >= 1
        }),
    decreases tokens.len() - at,
{
    let q = read_variants(tokens, at, read)->Err_0.0;
    let close = seq![TokenView::Punct('>')];
    if at < tokens.len() && tokens[at] is Ident {
        let word = tokens[at]->Ident_0;
        let first = seq![word];
        lemma_read_path_advances(tokens, at + 1, first);
        match read_path(tokens, at + 1, first) {
            Err(e) => {
                let extra = lemma_path_broken(tokens, at + 1, first);
                let filler = seq!['x'];
                let path = first + extra.push(filler);
                lemma_tail_push(extra, filler);
                assert(path.skip(1) =~= extra.push(filler));
                let variants = seq![path];
                let whole = list_tokens(variants, false) + close;
                assert(tokens.subrange(at, q) =~= seq![TokenView::Ident(word)] + tokens.subrange(
                    at + 1,
                    q,
                ));
                assert(tokens.subrange(at, q) =~= whole.subrange(0, q - at));
                (variants, false)
            },
            Ok((path, end)) => {
                lemma_path_spelled(tokens, at + 1, first);
                assert(path[0] == path.take(1)[0]);
                assert(path.skip(1) =~= path.skip(first.len() as int));
                assert(tokens.subrange(at, end) =~= path_tokens(path)) by {
                    assert(tokens.subrange(at, end) =~= seq![TokenView::Ident(word)]
                        + tokens.subrange(at + 1, end));
                }
                if end < tokens.len() && tokens[end] == TokenView::Punct(',') {
                    let (later, inner) = lemma_list_broken(tokens, end + 1, read.push(path));
                    let variants = seq![path] + later;
                    let trailing = if later.len() == 0 {
                        true
                    } else {
                        inner
                    };
                    assert(variants.skip(1) =~= later);
                    assert(list_tokens(later, trailing) == list_tokens(later, inner));
                    let whole = list_tokens(variants, trailing) + close;
                    let rest = list_tokens(later, inner) + close;
                    assert(whole =~= path_tokens(path) + seq![TokenView::Punct(',')] + rest);
                    assert(tokens.subrange(at, q) =~= path_tokens(path) + seq![
                        TokenView::Punct(','),
                    ] + tokens.subrange(end + 1, q));
                    assert(tokens.subrange(end + 1, q) =~= rest.subrange(0, q - end - 1));
                    assert(tokens.subrange(at, q) =~= whole.subrange(0, q - at));
                    assert forall|i: int| 0 <= i < variants.len() implies (
                    #[trigger] variants[i]).len() >= 1 by {
                        if i > 0 {
                            assert(variants[i] == later[i - 1]);
                        }
                    }
                    (variants, trailing)
                } else {
                    let variants = seq![path];
                    let whole = list_tokens(variants, false) + close;
                    assert(tokens.subrange(at, q) =~= whole.subrange(0, q - at));
                    (variants, false)
                }
            },
        }
    } else {
        assert(tokens.subrange(at, q) =~= Seq::<TokenView>::empty());
        (Seq::empty(), false)
    }
}

/// Up to the place where they go wrong, tokens are the beginning of a
/// declaration.
proof fn lemma_begins_before_error(tokens: Seq<TokenView>)
    requires
        parsed_node(tokens) is Err,
    ensures
        0 <= parsed_node(tokens)->Err_0.0 <= tokens.len(),
        begins_declaration(tokens.take(parsed_node(tokens)->Err_0.0)),
{
    let p = parsed_node(tokens)->Err_0.0;
    let is_pub = tokens.len() > 0 && tokens[0] == TokenView::Keyword("pub"@);
    let start: int = if is_pub {
        1
    } else {
        0
    };
    let close = seq![TokenView::Punct('>')];
    let any = seq!['x'];
    let headed = start < tokens.len() && tokens[start] == TokenView::Keyword("type"@);
    let named = headed && start + 1 < tokens.len() && tokens[start + 1] is Ident;
    let opened = named && start + 2 < tokens.len() && tokens[start + 2] == TokenView::Punct('<');
    let name = if named {
        tokens[start + 1]->Ident_0
    } else {
        any
    };
    let head = head_tokens(is_pub, name);
    if !opened {
        let node = ErrorNodeView {
            is_pub,
            node_name: name,
            variants: Seq::empty(),
            message_prefix: None,
        };
        let whole = spelling(node, false);
        assert(whole =~= head + close);
        assert(tokens.take(p) =~= whole.subrange(0, p));
        assert(node.well_formed() && tokens.take(p).is_prefix_of(spelling(node, false)));
    } else {
        assert(tokens.subrange(0, start + 3) =~= head);
        match read_variants(tokens, start + 3, Seq::empty()) {
            Err(e) => {
                let (variants, trailing) = lemma_list_broken(tokens, start + 3, Seq::empty());
                let node = ErrorNodeView {
                    is_pub,
                    node_name: name,
                    variants,
                    message_prefix: None,
                };
                let whole = spelling(node, trailing);
                let list = list_tokens(variants, trailing) + close;
                assert(whole =~= head + list);
                assert(tokens.take(p) =~= head + tokens.subrange(start + 3, p));
                assert(tokens.subrange(start + 3, p) =~= list.subrange(0, p - start - 3));
                assert(tokens.take(p) =~= whole.subrange(0, p));
                assert(node.well_formed() && tokens.take(p).is_prefix_of(spelling(node, trailing)));
            },
            Ok((variants, end)) => {
                let trailing = lemma_list_spelled(tokens, start + 3, Seq::empty());
                assert(variants.skip(0) =~= variants);
                let list = list_tokens(variants, trailing) + close;
                assert(tokens.take(end) =~= head + list);
                let message_prefix: Option<Seq<char>> = if p == end {
                    None
                } else if p == end + 1 {
                    Some(any)
                } else {
                    Some(tokens[end + 1]->Str_0)
                };
                let node = ErrorNodeView { is_pub, node_name: name, variants, message_prefix };
                let whole = spelling(node, trailing);
                assert(whole =~= head + list + prefix_tokens(message_prefix));
                assert(tokens.take(p) =~= tokens.take(end) + tokens.subrange(end, p));
                assert(tokens.take(p) =~= whole.subrange(0, p));
                assert(node.well_formed() && tokens.take(p).is_prefix_of(spelling(node, trailing)));
            },
        }
    }
}

/// The place where tokens go wrong is the first token at which they stop
/// being the beginning of a declaration: up to it, they begin one; with it,
/// they begin none. Where the place is the end of the tokens, they begin a
/// declaration and end too early.
pub proof fn lemma_error_is_at_first_offence(tokens: Seq<TokenView>)
    requires
        parsed_node(tokens) is Err,
    ensures
        ({
            let p = parsed_node(tokens)->Err_0.0;
            &&& 0 <= p <= tokens.len()
            &&& begins_declaration(tokens.take(p))
            &&& p < tokens.len() ==> !begins_declaration(tokens.take(p + 1))
        }),
{
    let p = parsed_node(tokens)->Err_0.0;
    lemma_begins_before_error(tokens);
    if p < tokens.len() {
        let read = tokens.take(p + 1);
        assert forall|node: ErrorNodeView, trailing: bool|
            node.well_formed() && read.is_prefix_of(
                #[trigger] spelling(node, trailing),
            ) implies false by {
            let whole = spelling(node, trailing);
            lemma_spelling_parses(node, trailing);
            assert forall|k: int| 0 <= k <= p implies tokens[k] == whole[k] by {
                assert(read[k] == tokens[k]);
                assert(read[k] == whole.subrange(0, read.len() as int)[k]);
            }
            lemma_error_is_local(tokens, whole);
        }
    }
}

} // verus!
