//! The cache behind a wrapper: its type and the expression that builds it once.
use vstd::prelude::*;
use vstd::string::*;
use crate::text::{decimal, decimal_text};

verus! {

/// Capacity of a cache whose key can take one value only.
pub const SINGLE_ENTRY_CAPACITY: usize = 1;

/// Capacity of a cache when nothing else is asked for.
pub const DEFAULT_CAPACITY: usize = 1000;

/// The cache implementation for a concurrency mode: the awaitable one for
/// asynchronous functions, the blocking thread-safe one otherwise.
pub open spec fn cache_path(is_async: bool) -> Seq<char> {
    if is_async {
        "::cold_moka::moka::future::Cache"@
    } else {
        "::cold_moka::moka::sync::Cache"@
    }
}

/// The type of the cache: the implementation with the key and value types.
pub open spec fn cache_type_text(is_async: bool, key_ty: Seq<char>, value_ty: Seq<char>) -> Seq<
    char,
> {
    cache_path(is_async) + "<"@ + key_ty + ", "@ + value_ty + ">"@
}

/// An unsigned 64-bit literal.
pub open spec fn u64_literal(n: u64) -> Seq<char> {
    decimal(n as nat) + "u64"@
}

/// The builder step that sets the time to live, where one is asked for.
pub open spec fn expiry(ttl: Option<u64>) -> Seq<char> {
    match ttl {
        Some(secs) => ".time_to_live(::std::time::Duration::from_secs("@ + u64_literal(secs)
            + "))"@,
        None => Seq::empty(),
    }
}

/// The expression that builds the cache: the capacity is always set, the time
/// to live only where one is given.
pub open spec fn cache_create_text(is_async: bool, ttl: Option<u64>, size: u64) -> Seq<char> {
    cache_path(is_async) + "::builder().max_capacity("@ + u64_literal(size) + ")"@ + expiry(ttl)
        + ".build()"@
}

/// The capacity of the cache: what was asked for, else one entry where the
/// key has no part, else the default.
pub open spec fn capacity(size: Option<usize>, key_parts: nat) -> usize {
    match size {
        Some(n) => n,
        None => if key_parts == 0 {
            SINGLE_ENTRY_CAPACITY
        } else {
            DEFAULT_CAPACITY
        },
    }
}

/// Picks the capacity for a key with `key_parts` parts.
pub fn cache_capacity(size: Option<usize>, key_parts: usize) -> (r: usize)
    ensures
        r == capacity(size, key_parts as nat),
{
    match size {
        Some(n) => n,
        None => if key_parts == 0 {
            SINGLE_ENTRY_CAPACITY
        } else {
            DEFAULT_CAPACITY
        },
    }
}

/// The path of the cache implementation for a concurrency mode.
fn implementation(is_async: bool) -> (r: &'static str)
    ensures
        r@ == cache_path(is_async),
{
    if is_async {
        "::cold_moka::moka::future::Cache"
    } else {
        "::cold_moka::moka::sync::Cache"
    }
}

/// Writes an unsigned 64-bit literal.
fn literal_text(n: u64) -> (r: String)
    ensures
        r@ == u64_literal(n),
{
    let mut out = decimal_text(n);
    out.append("u64");
    out
}

/// Writes the cache's type and the expression that builds it, for a
/// concurrency mode, an optional time to live in seconds, and a capacity.
pub fn cache_creation_statement(
    ttl: Option<u64>,
    is_async: bool,
    cache_value_ty: &str,
    cache_key_ty: &str,
    size: u64,
) -> (r: (String, String))
    ensures
        r.0@ == cache_type_text(is_async, cache_key_ty@, cache_value_ty@),
        r.1@ == cache_create_text(is_async, ttl, size),
{
    let mut cache_ty = String::from_str(implementation(is_async));
    cache_ty.append("<");
    cache_ty.append(cache_key_ty);
    cache_ty.append(", ");
    cache_ty.append(cache_value_ty);
    cache_ty.append(">");

    let mut step = String::new();
    match ttl {
        Some(secs) => {
            step.append(".time_to_live(::std::time::Duration::from_secs(");
            step.append(literal_text(secs).as_str());
            step.append("))");
        },
        None => {},
    }
    assert(step@ =~= expiry(ttl));
    let mut create = String::from_str(implementation(is_async));
    create.append("::builder().max_capacity(");
    create.append(literal_text(size).as_str());
    create.append(")");
    create.append(step.as_str());
    create.append(".build()");
    (cache_ty, create)
}

} // verus!
