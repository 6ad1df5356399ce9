//! The cache key: its type and the expression that builds it from the
//! arguments of a call.
//!
//! A key is either given (a key type with an expression that builds it, or an
//! expression alone beside a cache type) or made up of the chosen arguments.
use vstd::prelude::*;
use vstd::string::*;
use crate::error::ConfigError;
use crate::filter::{
    chosen, has_name, lemma_selected_all, lemma_selected_listed, lemma_selected_skips_unlisted,
    selected,
};
use crate::text::{join, join_texts, lemma_join_two, text_view, texts};
use crate::ty::{type_text, type_texts, type_views, TypeExpr};

verus! {

/// Calls `syn::parse_str::<syn::Type>` and, where it finds a type,
/// `quote::ToTokens::to_token_stream` and `to_string` on the type. The parser
/// takes the whole text or fails. How it reads a text and how the tokens are
/// written out depends on whether the process is expanding a macro, so
/// nothing is claimed of the outcome.
#[verifier::external_body]
pub(crate) fn parse_type(text: &str) -> (r: Option<String>) {
    match syn::parse_str::<syn::Type>(text) {
        Ok(ty) => Some(quote::ToTokens::to_token_stream(&ty).to_string()),
        Err(_) => None,
    }
}

/// Calls `syn::parse_str::<syn::Block>` and, where it finds a block,
/// `quote::ToTokens::to_token_stream` and `to_string` on the block. The
/// parser takes the whole text or fails. How it reads a text and how the
/// tokens are written out depends on whether the process is expanding a
/// macro, so nothing is claimed of the outcome.
#[verifier::external_body]
pub(crate) fn parse_block(text: &str) -> (r: Option<String>) {
    match syn::parse_str::<syn::Block>(text) {
        Ok(block) => Some(quote::ToTokens::to_token_stream(&block).to_string()),
        Err(_) => None,
    }
}

/// The texts of an optional list of names.
pub open spec fn filter_view(filter: Option<Vec<String>>) -> Option<Seq<Seq<char>>> {
    match filter {
        Some(list) => Some(texts(list@)),
        None => None,
    }
}

/// The key type and the key expression that an outcome stands for.
pub open spec fn plan_outcome(r: Result<(String, String), ConfigError>) -> Result<
    (Seq<char>, Seq<char>),
    ConfigError,
> {
    match r {
        Ok(plan) => Ok((plan.0@, plan.1@)),
        Err(e) => Err(e),
    }
}

/// Several items in round brackets, with commas between them.
pub open spec fn tuple_text(items: Seq<Seq<char>>) -> Seq<char> {
    "("@ + join(items, ", "@) + ")"@
}

/// The key made up of the chosen arguments: the tuple of their types, built
/// as the tuple of their names.
pub open spec fn default_key(
    tys: Seq<Seq<char>>,
    names: Seq<Seq<char>>,
    filter: Option<Seq<Seq<char>>>,
) -> (Seq<char>, Seq<char>) {
    (tuple_text(selected(tys, names, filter)), tuple_text(selected(names, names, filter)))
}

/// The key type and the expression that builds the key.
///
/// `key_tokens` and `convert_tokens` are what became of the given key type
/// and of the given expression when they were read.
pub open spec fn key_plan(
    key: Option<Seq<char>>,
    convert: Option<Seq<char>>,
    cache_type: Option<Seq<char>>,
    key_tokens: Option<Seq<char>>,
    convert_tokens: Option<Seq<char>>,
    tys: Seq<Seq<char>>,
    names: Seq<Seq<char>>,
    filter: Option<Seq<Seq<char>>>,
) -> Result<(Seq<char>, Seq<char>), ConfigError> {
    match (key, convert) {
        (Some(_), Some(_)) => match (key_tokens, convert_tokens) {
            (None, _) => Err(ConfigError::InvalidKeyType),
            (Some(_), None) => Err(ConfigError::InvalidConvertBlock),
            (Some(key_ty), Some(block)) => Ok((key_ty, block)),
        },
        (None, Some(_)) => match cache_type {
            None => Err(ConfigError::ConvertRequiresKeyOrType),
            Some(_) => match convert_tokens {
                None => Err(ConfigError::InvalidConvertBlock),
                Some(block) => Ok((Seq::empty(), block)),
            },
        },
        (None, None) => Ok(default_key(tys, names, filter)),
        (Some(_), None) => Err(ConfigError::KeyRequiresConvert),
    }
}

/// Without a list of names the key of two arguments `a: t1` and `b: t2` is
/// built as `(a, b)`, and its type is `(t1, t2)`.
pub proof fn lemma_default_key_of_two(a: Seq<char>, t1: Seq<char>, b: Seq<char>, t2: Seq<char>)
    ensures
        default_key(seq![t1, t2], seq![a, b], None) == ("("@ + (t1 + ", "@ + t2) + ")"@, "("@ + (a
            + ", "@ + b) + ")"@),
{
    lemma_selected_all(seq![t1, t2], seq![a, b]);
    lemma_selected_all(seq![a, b], seq![a, b]);
    lemma_join_two(t1, t2, ", "@);
    lemma_join_two(a, b, ", "@);
}

/// Without a list of names every argument takes part in the key, in order.
pub proof fn lemma_default_key_takes_all(tys: Seq<Seq<char>>, names: Seq<Seq<char>>)
    ensures
        default_key(tys, names, None) == (tuple_text(tys), tuple_text(names)),
{
    lemma_selected_all(tys, names);
    lemma_selected_all(names, names);
}

/// Arguments that the list names all take part in the key, in the order of
/// the arguments: the key changes with each of them.
pub proof fn lemma_listed_arguments_take_part(
    tys: Seq<Seq<char>>,
    names: Seq<Seq<char>>,
    list: Seq<Seq<char>>,
)
    requires
        tys.len() == names.len(),
        forall|k: int| 0 <= k < names.len() ==> list.contains(#[trigger] names[k]),
    ensures
        default_key(tys, names, Some(list)) == (tuple_text(tys), tuple_text(names)),
{
    lemma_selected_listed(tys, names, list);
    lemma_selected_listed(names, names, list);
}

/// An argument that the list of names leaves out has no part in the key:
/// neither its name nor its type changes the key type or the expression
/// that builds the key.
pub proof fn lemma_unlisted_argument_left_out(
    tys: Seq<Seq<char>>,
    names: Seq<Seq<char>>,
    list: Seq<Seq<char>>,
    i: int,
)
    requires
        tys.len() == names.len(),
        0 <= i < names.len(),
        !list.contains(names[i]),
    ensures
        default_key(tys, names, Some(list)) == default_key(
            tys.remove(i),
            names.remove(i),
            Some(list),
        ),
{
    lemma_selected_skips_unlisted(tys, names, list, i);
    lemma_selected_skips_unlisted(names, names, list, i);
}

/// With the list `a, b`, the key of the arguments `ctx`, `a` and `b` is the
/// key of `a` and `b` alone: it is built as `(a, b)` whatever `ctx` is.
pub proof fn lemma_context_left_out(
    ctx: Seq<char>,
    tc: Seq<char>,
    a: Seq<char>,
    t1: Seq<char>,
    b: Seq<char>,
    t2: Seq<char>,
)
    requires
        ctx != a,
        ctx != b,
    ensures
        default_key(seq![tc, t1, t2], seq![ctx, a, b], Some(seq![a, b])) == default_key(
            seq![t1, t2],
            seq![a, b],
            None,
        ),
        selected(seq![tc, t1, t2], seq![ctx, a, b], Some(seq![a, b])) == seq![t1, t2],
        selected(seq![ctx, a, b], seq![ctx, a, b], Some(seq![a, b])) == seq![a, b],
{
    let list = seq![a, b];
    let names = seq![ctx, a, b];
    let tys = seq![tc, t1, t2];
    assert(!list.contains(ctx)) by {
        if list.contains(ctx) {
            let k = choose|k: int| 0 <= k < list.len() && list[k] == ctx;
            assert(k == 0 || k == 1);
        }
    }
    lemma_unlisted_argument_left_out(tys, names, list, 0);
    lemma_selected_skips_unlisted(tys, names, list, 0);
    lemma_selected_skips_unlisted(names, names, list, 0);
    assert(tys.remove(0) =~= seq![t1, t2]);
    assert(names.remove(0) =~= seq![a, b]);
    lemma_selected_all(seq![t1, t2], seq![a, b]);
    lemma_selected_all(seq![a, b], seq![a, b]);
    lemma_selected_listed(seq![t1, t2], seq![a, b], list);
    lemma_selected_listed(seq![a, b], seq![a, b], list);
}

/// Keeps those of `items` whose position is chosen by the list of names.
pub fn select_texts(items: &Vec<String>, names: &Vec<String>, filter: &Option<Vec<String>>) -> (r:
    Vec<String>)
    ensures
        texts(r@) == selected(texts(items@), texts(names@), filter_view(*filter)),
{
    let ghost all = texts(items@);
    let mut out: Vec<String> = Vec::new();
    let mut i: usize = 0;
    assert(texts(out@) =~= selected(all.take(0), texts(names@), filter_view(*filter)));
    while i < items.len()
        invariant
            i <= items.len(),
            all == texts(items@),
            texts(out@) == selected(all.take(i as int), texts(names@), filter_view(*filter)),
        decreases items.len() - i,
    {
        proof {
            assert(all.take(i + 1).drop_last() =~= all.take(i as int));
            assert(all.take(i + 1).last() == items@[i as int]@);
        }
        let keep = match filter {
            None => true,
            Some(list) => i < names.len() && has_name(list, names[i].as_str()),
        };
        assert(keep == chosen(texts(names@), filter_view(*filter), i as int));
        if keep {
            let ghost before = out@;
            out.push(items[i].clone());
            assert(texts(out@) =~= texts(before).push(items@[i as int]@));
        }
        i = i + 1;
    }
    assert(all.take(items.len() as int) =~= all);
    out
}

/// Writes each of several types out.
pub fn types_to_texts(tys: &Vec<TypeExpr>) -> (r: Vec<String>)
    ensures
        texts(r@) == type_texts(type_views(tys@)),
{
    let mut out: Vec<String> = Vec::new();
    let mut i: usize = 0;
    while i < tys.len()
        invariant
            i <= tys.len(),
            out@.len() == i,
            forall|j: int| 0 <= j < i ==> out@[j]@ == type_text(tys@[j]@),
        decreases tys.len() - i,
    {
        out.push(tys[i].to_text());
        i = i + 1;
    }
    assert(texts(out@) =~= type_texts(type_views(tys@)));
    out
}

/// Writes several items in round brackets, with commas between them.
fn tuple_of(items: &Vec<String>) -> (r: String)
    ensures
        r@ == tuple_text(texts(items@)),
{
    let mut out = String::from_str("(");
    out.append(join_texts(items, ", ").as_str());
    out.append(")");
    out
}

/// Makes the key type and the expression that builds the key, given what
/// became of the key type and of the expression when they were read.
pub fn key_from_parts(
    key: &Option<String>,
    convert: &Option<String>,
    cache_type: &Option<String>,
    key_tokens: Option<String>,
    convert_tokens: Option<String>,
    input_tys: &Vec<TypeExpr>,
    input_names: &Vec<String>,
    filter: &Option<Vec<String>>,
) -> (r: Result<(String, String), ConfigError>)
    ensures
        plan_outcome(r) == key_plan(
            text_view(*key),
            text_view(*convert),
            text_view(*cache_type),
            text_view(key_tokens),
            text_view(convert_tokens),
            type_texts(type_views(input_tys@)),
            texts(input_names@),
            filter_view(*filter),
        ),
{
    match (key, convert) {
        (Some(_), Some(_)) => match (key_tokens, convert_tokens) {
            (None, _) => Err(ConfigError::InvalidKeyType),
            (Some(_), None) => Err(ConfigError::InvalidConvertBlock),
            (Some(key_ty), Some(block)) => Ok((key_ty, block)),
        },
        (None, Some(_)) => match cache_type {
            None => Err(ConfigError::ConvertRequiresKeyOrType),
            Some(_) => match convert_tokens {
                None => Err(ConfigError::InvalidConvertBlock),
                Some(block) => Ok((String::new(), block)),
            },
        },
        (None, None) => {
            let shown = types_to_texts(input_tys);
            let key_ty = tuple_of(&select_texts(&shown, input_names, filter));
            let key_expr = tuple_of(&select_texts(input_names, input_names, filter));
            Ok((key_ty, key_expr))
        },
        (Some(_), None) => Err(ConfigError::KeyRequiresConvert),
    }
}

/// Makes the key type and the expression that builds the key from the
/// arguments: the given ones, read as a type and as a block, or by default
/// the tuple of the chosen arguments.
///
/// What the reading of a given key type or block comes to is the parser's
/// affair: the result is the plan for some outcome of each reading, and only
/// what was given is read. Without `key` and `convert` nothing is read and
/// the result is the default key.
pub fn make_cache_key_type(
    key: &Option<String>,
    convert: &Option<String>,
    cache_type: &Option<String>,
    input_tys: &Vec<TypeExpr>,
    input_names: &Vec<String>,
    filter: &Option<Vec<String>>,
) -> (r: Result<(String, String), ConfigError>)
    ensures
        exists|key_tokens: Option<Seq<char>>, convert_tokens: Option<Seq<char>>|
            (*key is None ==> key_tokens is None) && (*convert is None ==> convert_tokens is None)
                && plan_outcome(r) == #[trigger] key_plan(
                text_view(*key),
                text_view(*convert),
                text_view(*cache_type),
                key_tokens,
                convert_tokens,
                type_texts(type_views(input_tys@)),
                texts(input_names@),
                filter_view(*filter),
            ),
{
    let key_tokens = match key {
        Some(text) => parse_type(text.as_str()),
        None => None,
    };
    let convert_tokens = match convert {
        Some(text) => parse_block(text.as_str()),
        None => None,
    };
    let ghost read_key = text_view(key_tokens);
    let ghost read_convert = text_view(convert_tokens);
    let r = key_from_parts(
        key,
        convert,
        cache_type,
        key_tokens,
        convert_tokens,
        input_tys,
        input_names,
        filter,
    );
    assert(plan_outcome(r) == key_plan(
        text_view(*key),
        text_view(*convert),
        text_view(*cache_type),
        read_key,
        read_convert,
        type_texts(type_views(input_tys@)),
        texts(input_names@),
        filter_view(*filter),
    ));
    r
}

} // verus!
