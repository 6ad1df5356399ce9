//! The expression through which the wrapper reaches the cache.
//!
//! The shape of the return type picks the cache operation, and the
//! concurrency mode picks how the computation is handed over: as a closure
//! that the cache runs on a miss, or as a future that it awaits on a miss.
use vstd::prelude::*;
use vstd::string::*;
use crate::shape::RetTurnTy;
use crate::text::{join, join_texts, texts};

verus! {

/// The call of the inner function: its name and the arguments in brackets.
pub open spec fn inner_call(inner: Seq<char>, args: Seq<Seq<char>>) -> Seq<char> {
    inner + "("@ + join(args, ", "@) + ")"@
}

/// The cache operation for a shape: the plain one stores every result, the
/// fallible one stores successes only, the optional one stores present values only.
pub open spec fn cache_operation(shape: RetTurnTy) -> Seq<char> {
    match shape {
        RetTurnTy::Bare => "get_with_by_ref"@,
        RetTurnTy::Result => "try_get_with_by_ref"@,
        RetTurnTy::Option => "optionally_get_with_by_ref"@,
    }
}

/// How the computation is handed to the cache: a closure in blocking code, the
/// future itself in asynchronous code. Either way it runs on a miss only.
pub open spec fn compute_step(call: Seq<char>, is_async: bool) -> Seq<char> {
    if is_async {
        call
    } else {
        "|| "@ + call
    }
}

/// What follows the cache call: asynchronous code awaits it.
pub open spec fn await_suffix(is_async: bool) -> Seq<char> {
    if is_async {
        ".await"@
    } else {
        Seq::empty()
    }
}

/// The cache call itself, keyed by a reference to `key`.
pub open spec fn lookup(shape: RetTurnTy, is_async: bool, cache: Seq<char>, call: Seq<char>) -> Seq<
    char,
> {
    cache + "."@ + cache_operation(shape) + "(&key, "@ + compute_step(call, is_async) + ")"@
        + await_suffix(is_async)
}

/// The access expression of the wrapper. A plain or optional result is the value
/// of the cache call. A fallible one is matched: a success is handed on, a
/// failure leaves the wrapper at once, converted to the declared error.
pub open spec fn access_text(
    shape: RetTurnTy,
    is_async: bool,
    cache: Seq<char>,
    inner: Seq<char>,
    args: Seq<Seq<char>>,
) -> Seq<char> {
    let found = lookup(shape, is_async, cache, inner_call(inner, args));
    match shape {
        RetTurnTy::Result => "let result = "@ + found
            + "; match result { Ok(v) => Ok(v), Err(e) => return Err(e.into()), }"@,
        _ => found,
    }
}

/// The name of the cache operation for a shape.
fn operation_name(shape: RetTurnTy) -> (r: &'static str)
    ensures
        r@ == cache_operation(shape),
{
    match shape {
        RetTurnTy::Bare => "get_with_by_ref",
        RetTurnTy::Result => "try_get_with_by_ref",
        RetTurnTy::Option => "optionally_get_with_by_ref",
    }
}

/// Writes the access expression for a return shape and a concurrency mode.
/// `input_names` are the arguments of the inner call, `cache_ident` names the
/// cache, `no_cache_fn_ident` the inner function, which computes without it.
pub fn inner_function_call(
    input_names: &Vec<String>,
    return_ty: RetTurnTy,
    cache_ident: &str,
    no_cache_fn_ident: &str,
    is_async: bool,
) -> (r: String)
    ensures
        r@ == access_text(
            return_ty,
            is_async,
            cache_ident@,
            no_cache_fn_ident@,
            texts(input_names@),
        ),
{
    let mut call = String::from_str(no_cache_fn_ident);
    call.append("(");
    call.append(join_texts(input_names, ", ").as_str());
    call.append(")");
    let mut step = String::new();
    if !is_async {
        step.append("|| ");
    }
    step.append(call.as_str());
    assert(step@ =~= compute_step(call@, is_async));
    let mut found = String::from_str(cache_ident);
    found.append(".");
    found.append(operation_name(return_ty));
    found.append("(&key, ");
    found.append(step.as_str());
    found.append(")");
    if is_async {
        found.append(".await");
    }
    assert(found@ =~= lookup(return_ty, is_async, cache_ident@, call@));
    match return_ty {
        RetTurnTy::Result => {
            let mut out = String::from_str("let result = ");
            out.append(found.as_str());
            out.append("; match result { Ok(v) => Ok(v), Err(e) => return Err(e.into()), }");
            out
        },
        _ => found,
    }
}

} // verus!
