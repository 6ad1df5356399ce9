//! The rewrite itself: from the options and a function to the text of the
//! memoized function.
use vstd::prelude::*;
use vstd::string::*;
use crate::access::{access_text, inner_function_call};
use crate::cache::{
    cache_capacity, cache_create_text, cache_creation_statement, cache_type_text, capacity,
};
use crate::error::{text_outcome, ConfigError};
use crate::filter::{
    is_word, lemma_name_list_of_words, lemma_selected_all, name_filter, name_list, selected,
};
use crate::gather::lemma_gather_singles;
use crate::key::{
    filter_view, key_plan, lemma_context_left_out, lemma_default_key_takes_all,
    make_cache_key_type, parse_block, plan_outcome,
    select_texts, tuple_text,
};
use crate::pattern::{binding_views, is_plain_name, pat_text, without_mut, Binding};
use crate::shape::{
    classify, find_value_type, output_type, output_type_text, return_fallible_ty, stored_type,
};
use crate::signature::{
    arg_bindings, arg_types, call_argument, call_arguments, declaration_text, get_input_names,
    get_input_types, get_mut_signature, get_wrapped_type_for_function_call, input_bindings,
    input_types, lemma_plain_parameter, plain_signature, signature_text, FnArgView, Signature,
    SignatureView,
};
use crate::text::{each_spaced, spaced_texts, text_view, texts};
use crate::ty::{type_text, type_texts, type_views, TypeView};

verus! {

/// The options of an annotation. Each may be left out.
#[derive(Debug, PartialEq, Eq)]
pub struct MacroArgs {
    /// The capacity of the cache. Left out, it is one entry where no argument
    /// takes part in the key, and a thousand entries else.
    pub size: Option<usize>,
    /// The time to live of an entry, in seconds.
    pub ttl: Option<u64>,
    /// With `convert`: the type of the key. Alone: the names of the
    /// arguments that make up the key, separated by commas.
    pub key: Option<String>,
    /// A block that builds the key from the arguments.
    pub convert: Option<String>,
    /// A cache type, which lets `convert` stand without `key`.
    pub cache_type: Option<String>,
    /// A block that builds the cache, in place of the derived expression.
    pub cache_create: Option<String>,
    /// The name of the cache, in place of the function's name in upper case.
    pub name: Option<String>,
}

/// A function: its attributes, its visibility, its signature and its body.
#[derive(Debug, PartialEq, Eq)]
pub struct ItemFn {
    pub attrs: Vec<String>,
    pub vis: String,
    pub sig: Signature,
    pub block: String,
}

/// What a [`MacroArgs`] stands for.
pub struct MacroArgsView {
    pub size: Option<usize>,
    pub ttl: Option<u64>,
    pub key: Option<Seq<char>>,
    pub convert: Option<Seq<char>>,
    pub cache_type: Option<Seq<char>>,
    pub cache_create: Option<Seq<char>>,
    pub name: Option<Seq<char>>,
}

/// What an [`ItemFn`] stands for.
pub struct ItemFnView {
    pub attrs: Seq<Seq<char>>,
    pub vis: Seq<char>,
    pub sig: SignatureView,
    pub block: Seq<char>,
}

impl View for MacroArgs {
    type V = MacroArgsView;

    open spec fn view(&self) -> MacroArgsView {
        MacroArgsView {
            size: self.size,
            ttl: self.ttl,
            key: text_view(self.key),
            convert: text_view(self.convert),
            cache_type: text_view(self.cache_type),
            cache_create: text_view(self.cache_create),
            name: text_view(self.name),
        }
    }
}

impl View for ItemFn {
    type V = ItemFnView;

    open spec fn view(&self) -> ItemFnView {
        ItemFnView { attrs: texts(self.attrs@), vis: self.vis@, sig: self.sig@, block: self.block@ }
    }
}

/// An annotation without options.
pub open spec fn no_options() -> MacroArgsView {
    MacroArgsView {
        size: None,
        ttl: None,
        key: None,
        convert: None,
        cache_type: None,
        cache_create: None,
        name: None,
    }
}

impl Default for MacroArgs {
    /// An annotation without options.
    fn default() -> (r: MacroArgs)
        ensures
            r@ == no_options(),
    {
        MacroArgs {
            size: None,
            ttl: None,
            key: None,
            convert: None,
            cache_type: None,
            cache_create: None,
            name: None,
        }
    }
}

/// What `str::to_uppercase` makes of a text: its upper case as Unicode
/// defines it.
pub uninterp spec fn uppercase(text: Seq<char>) -> Seq<char>;

/// Calls `str::to_uppercase` of the standard library. Nothing is claimed of
/// the outcome but that it goes by the text alone.
#[verifier::external_body]
fn to_uppercase(text: &str) -> (r: String)
    ensures
        r@ == uppercase(text@),
{
    text.to_uppercase()
}

/// The names of a list of bindings.
pub open spec fn binding_names(found: Seq<Binding>) -> Seq<Seq<char>> {
    Seq::new(found.len(), |i: int| found[i].0)
}

/// The key type that the options give: `key` counts as one only beside
/// `convert`.
pub open spec fn explicit_key(args: MacroArgsView) -> Option<Seq<char>> {
    match args.convert {
        Some(_) => args.key,
        None => None,
    }
}

/// The names that pick the arguments of the default key: `key` read as a
/// list of names where `convert` is left out.
pub open spec fn key_filter(args: MacroArgsView) -> Option<Seq<Seq<char>>> {
    match (args.key, args.convert) {
        (Some(list), None) => Some(name_list(list)),
        _ => None,
    }
}

/// The name of the cache: the one asked for, else the function's name in
/// upper case.
pub open spec fn cache_name(name: Option<Seq<char>>, upper: Seq<char>) -> Seq<char> {
    match name {
        Some(given) => given,
        None => upper,
    }
}

/// The name under which the body of the function lives on.
pub open spec fn inner_name(ident: Seq<char>) -> Seq<char> {
    ident + "_inner"@
}

/// The expression that builds the cache: the derived one, or the given block
/// as it was read.
pub open spec fn construction(
    derived: Seq<char>,
    cache_create: Option<Seq<char>>,
    create_tokens: Option<Seq<char>>,
) -> Result<Seq<char>, ConfigError> {
    match cache_create {
        None => Ok(derived),
        Some(_) => match create_tokens {
            Some(block) => Ok(block),
            None => Err(ConfigError::InvalidCreateBlock),
        },
    }
}

/// The cache: a static that is built on first use.
pub open spec fn static_text(cache_ident: Seq<char>, cache_ty: Seq<char>, create: Seq<char>) -> Seq<
    char,
> {
    "static "@ + cache_ident + ": ::cold_moka::once_cell::sync::Lazy<"@ + cache_ty
        + "> = ::cold_moka::once_cell::sync::Lazy::new(|| "@ + create + ");"@
}

/// The statement that builds the key.
pub open spec fn key_stmt_text(key_expr: Seq<char>) -> Seq<char> {
    "let key = "@ + key_expr + ";"@
}

/// The visibility followed by a space, where one is written.
pub open spec fn vis_text(vis: Seq<char>) -> Seq<char> {
    if vis.len() == 0 {
        Seq::empty()
    } else {
        vis + " "@
    }
}

/// The rewritten function. It keeps the attributes and the visibility; its
/// signature is the written one without `mut` on the parameters; its body
/// holds, in this order, the function as written under the name `inner`,
/// with its parameters and body untouched, the cache, the statement that builds the
/// key, and the access expression, whose value is the result.
pub open spec fn assembled_text(
    item: ItemFnView,
    inner: Seq<char>,
    cache_static: Seq<char>,
    key_stmt: Seq<char>,
    access: Seq<char>,
) -> Seq<char> {
    each_spaced(item.attrs) + vis_text(item.vis) + signature_text(plain_signature(item.sig))
        + " { "@ + declaration_text(item.sig, inner) + " "@ + item.block + " "@ + cache_static + " "@
        + key_stmt + " "@ + access + " }"@
}

/// What the outside functions made of the texts that the rewrite hands them.
/// A text that is not given is not read.
pub struct Readings {
    /// The function's name in upper case.
    pub upper: Seq<char>,
    /// The key type, read as a type.
    pub key_tokens: Option<Seq<char>>,
    /// The key expression, read as a block.
    pub convert_tokens: Option<Seq<char>>,
    /// The construction expression, read as a block.
    pub create_tokens: Option<Seq<char>>,
}

/// The text of the memoized function, or the first thing that makes the
/// annotation invalid: in the parameters, in the return type, in the key, in
/// the construction expression.
pub open spec fn rewrite(args: MacroArgsView, item: ItemFnView, read: Readings) -> Result<
    Seq<char>,
    ConfigError,
> {
    let sig = item.sig;
    let shape = classify(sig.output);
    let filter = key_filter(args);
    match input_bindings(sig.inputs) {
        Err(e) => Err(e),
        Ok(found) => match input_types(sig.inputs) {
            Err(e) => Err(e),
            Ok(tys) => match call_arguments(sig.inputs) {
                Err(e) => Err(e),
                Ok(call_args) => match stored_type(shape, sig.output, output_type_text(sig.output)) {
                    Err(e) => Err(e),
                    Ok(value_ty) => match key_plan(
                        explicit_key(args),
                        args.convert,
                        args.cache_type,
                        read.key_tokens,
                        read.convert_tokens,
                        type_texts(tys),
                        binding_names(found),
                        filter,
                    ) {
                        Err(e) => Err(e),
                        Ok(key) => {
                            let names = binding_names(found);
                            let size = capacity(args.size, selected(names, names, filter).len());
                            match construction(
                                cache_create_text(sig.is_async, args.ttl, size as u64),
                                args.cache_create,
                                read.create_tokens,
                            ) {
                                Err(e) => Err(e),
                                Ok(create) => {
                                    let cache_ident = cache_name(args.name, read.upper);
                                    let inner = inner_name(sig.ident);
                                    Ok(
                                        assembled_text(
                                            item,
                                            inner,
                                            static_text(
                                                cache_ident,
                                                cache_type_text(sig.is_async, key.0, value_ty),
                                                create,
                                            ),
                                            key_stmt_text(key.1),
                                            access_text(
                                                shape,
                                                sig.is_async,
                                                cache_ident,
                                                inner,
                                                call_args,
                                            ),
                                        ),
                                    )
                                },
                            }
                        },
                    },
                },
            },
        },
    }
}

/// The rewrite of a function whose key is made up of arguments: the key is
/// the tuple of `key_names`, its type the tuple of `key_tys`, the cache is
/// built for `size` entries without a time to live, and `call_args` hand the
/// parameters on. It fails only where the return type wraps nothing.
pub open spec fn rewritten_by_default(
    item: ItemFnView,
    read: Readings,
    key_tys: Seq<Seq<char>>,
    key_names: Seq<Seq<char>>,
    call_args: Seq<Seq<char>>,
    size: u64,
) -> Result<Seq<char>, ConfigError> {
    let sig = item.sig;
    let shape = classify(sig.output);
    match stored_type(shape, sig.output, output_type_text(sig.output)) {
        Err(e) => Err(e),
        Ok(value_ty) => Ok(
            assembled_text(
                item,
                inner_name(sig.ident),
                static_text(
                    read.upper,
                    cache_type_text(sig.is_async, tuple_text(key_tys), value_ty),
                    cache_create_text(sig.is_async, None, size),
                ),
                key_stmt_text(tuple_text(key_names)),
                access_text(shape, sig.is_async, read.upper, inner_name(sig.ident), call_args),
            ),
        ),
    }
}

/// An annotation with no option but a list of names.
pub open spec fn only_key(list: Seq<char>) -> MacroArgsView {
    MacroArgsView {
        size: None,
        ttl: None,
        key: Some(list),
        convert: None,
        cache_type: None,
        cache_create: None,
        name: None,
    }
}

/// A function without parameters, rewritten without options, gets the empty
/// tuple as its key and a cache of one entry, named by the function's name
/// in upper case.
pub proof fn lemma_no_parameters_one_entry(item: ItemFnView, read: Readings)
    requires
        item.sig.inputs.len() == 0,
    ensures
        rewrite(no_options(), item, read) == rewritten_by_default(
            item,
            read,
            Seq::empty(),
            Seq::empty(),
            Seq::empty(),
            1,
        ),
{
    let inputs = item.sig.inputs;
    assert(Seq::new(inputs.len(), |i: int| arg_bindings(inputs[i])) =~= Seq::empty());
    assert(Seq::new(inputs.len(), |i: int| arg_types(inputs[i])) =~= Seq::empty());
    assert(Seq::new(inputs.len(), |i: int| call_argument(inputs[i])) =~= Seq::empty());
    let found = Seq::<Binding>::empty();
    assert(input_bindings(inputs) == Ok::<Seq<Binding>, ConfigError>(found));
    assert(binding_names(found) =~= Seq::<Seq<char>>::empty());
    assert(type_texts(Seq::empty()) =~= Seq::<Seq<char>>::empty());
}

/// Whether a parameter is a plain name with a type: a name without `ref`
/// and without a sub-pattern.
pub open spec fn is_named(arg: FnArgView) -> bool {
    arg matches FnArgView::Typed { pat, .. } && is_plain_name(pat)
}

/// What parameters that are plain names bind, which types the bindings
/// have, and which arguments hand the parameters on.
proof fn lemma_named_parameters(inputs: Seq<FnArgView>)
    requires
        forall|i: int| 0 <= i < inputs.len() ==> is_named(#[trigger] inputs[i]),
    ensures
        input_bindings(inputs) == Ok::<Seq<Binding>, ConfigError>(
            Seq::new(inputs.len(), |i: int| (inputs[i]->pat->name, 0nat)),
        ),
        input_types(inputs) == Ok::<Seq<TypeView>, ConfigError>(
            Seq::new(inputs.len(), |i: int| inputs[i]->ty),
        ),
        call_arguments(inputs) == Ok::<Seq<Seq<char>>, ConfigError>(
            Seq::new(inputs.len(), |i: int| inputs[i]->pat->name),
        ),
{
    let found = Seq::new(inputs.len(), |i: int| (inputs[i]->pat->name, 0nat));
    let tys = Seq::new(inputs.len(), |i: int| inputs[i]->ty);
    let names = Seq::new(inputs.len(), |i: int| inputs[i]->pat->name);
    let bound = Seq::new(inputs.len(), |i: int| arg_bindings(inputs[i]));
    let typed = Seq::new(inputs.len(), |i: int| arg_types(inputs[i]));
    let handed = Seq::new(inputs.len(), |i: int| call_argument(inputs[i]));
    assert forall|i: int| 0 <= i < inputs.len() implies #[trigger] bound[i] == Ok::<
        Seq<Binding>,
        ConfigError,
    >(seq![found[i]]) by {
        assert(is_named(inputs[i]));
        lemma_plain_parameter(inputs[i]->attrs, inputs[i]->pat, inputs[i]->ty);
    }
    assert forall|i: int| 0 <= i < inputs.len() implies #[trigger] typed[i] == Ok::<
        Seq<TypeView>,
        ConfigError,
    >(seq![tys[i]]) by {
        assert(is_named(inputs[i]));
        lemma_plain_parameter(inputs[i]->attrs, inputs[i]->pat, inputs[i]->ty);
    }
    assert forall|i: int| 0 <= i < inputs.len() implies #[trigger] handed[i] == Ok::<
        Seq<Seq<char>>,
        ConfigError,
    >(seq![names[i]]) by {
        assert(is_named(inputs[i]));
        assert(pat_text(without_mut(inputs[i]->pat)) =~= names[i]);
    }
    lemma_gather_singles(bound, found);
    lemma_gather_singles(typed, tys);
    lemma_gather_singles(handed, names);
}

/// A function of two parameters `a: t1` and `b: t2`, rewritten without
/// options, builds its key as `(a, b)`: the key is equal to the pair of its
/// arguments. The key type is `(t1, t2)` and the cache has the default
/// capacity.
pub proof fn lemma_two_parameters_make_the_key(
    item: ItemFnView,
    read: Readings,
    a: FnArgView,
    b: FnArgView,
)
    requires
        item.sig.inputs == seq![a, b],
        is_named(a),
        is_named(b),
    ensures
        rewrite(no_options(), item, read) == rewritten_by_default(
            item,
            read,
            seq![type_text(a->ty), type_text(b->ty)],
            seq![a->pat->name, b->pat->name],
            seq![a->pat->name, b->pat->name],
            1000,
        ),
{
    let names = seq![a->pat->name, b->pat->name];
    let tys = seq![a->ty, b->ty];
    let inputs = item.sig.inputs;
    lemma_named_parameters(inputs);
    let found = Seq::new(inputs.len(), |i: int| (inputs[i]->pat->name, 0nat));
    assert(binding_names(found) =~= names);
    assert(Seq::new(inputs.len(), |i: int| inputs[i]->ty) =~= tys);
    assert(Seq::new(inputs.len(), |i: int| inputs[i]->pat->name) =~= names);
    assert(type_texts(tys) =~= seq![type_text(a->ty), type_text(b->ty)]);
    lemma_selected_all(type_texts(tys), names);
    lemma_selected_all(names, names);
}

/// A function of three parameters `ctx`, `a` and `b`, rewritten with a key
/// whose list holds `a` and `b`, builds its key as `(a, b)`: neither the
/// name nor the type of `ctx` has a part in the key or in its type, and
/// `ctx` is handed on to the computation all the same.
pub proof fn lemma_listed_parameters_make_the_key(
    item: ItemFnView,
    read: Readings,
    list: Seq<char>,
    ctx: FnArgView,
    a: FnArgView,
    b: FnArgView,
)
    requires
        item.sig.inputs == seq![ctx, a, b],
        is_named(ctx),
        is_named(a),
        is_named(b),
        name_list(list) == seq![a->pat->name, b->pat->name],
        ctx->pat->name != a->pat->name,
        ctx->pat->name != b->pat->name,
    ensures
        rewrite(only_key(list), item, read) == rewritten_by_default(
            item,
            read,
            seq![type_text(a->ty), type_text(b->ty)],
            seq![a->pat->name, b->pat->name],
            seq![ctx->pat->name, a->pat->name, b->pat->name],
            1000,
        ),
{
    let names = seq![ctx->pat->name, a->pat->name, b->pat->name];
    let tys = seq![ctx->ty, a->ty, b->ty];
    let listed = seq![a->pat->name, b->pat->name];
    let key_tys = seq![type_text(a->ty), type_text(b->ty)];
    let args = only_key(list);
    let inputs = item.sig.inputs;
    lemma_named_parameters(inputs);
    let found = Seq::new(inputs.len(), |i: int| (inputs[i]->pat->name, 0nat));
    assert(binding_names(found) =~= names);
    assert(Seq::new(inputs.len(), |i: int| inputs[i]->ty) =~= tys);
    assert(Seq::new(inputs.len(), |i: int| inputs[i]->pat->name) =~= names);
    assert(type_texts(tys) =~= seq![type_text(ctx->ty), type_text(a->ty), type_text(b->ty)]);
    lemma_context_left_out(
        ctx->pat->name,
        type_text(ctx->ty),
        a->pat->name,
        type_text(a->ty),
        b->pat->name,
        type_text(b->ty),
    );
    lemma_default_key_takes_all(key_tys, listed);
    assert(key_filter(args) == Some(listed));
    assert(key_plan(
        explicit_key(args),
        args.convert,
        args.cache_type,
        read.key_tokens,
        read.convert_tokens,
        type_texts(tys),
        names,
        Some(listed),
    ) == Ok::<(Seq<char>, Seq<char>), ConfigError>((tuple_text(key_tys), tuple_text(listed))));
    assert(capacity(args.size, selected(names, names, Some(listed)).len()) == 1000);
}

/// With the key `a, b`, written with these very names, a function of three
/// parameters `ctx`, `a` and `b` whose names are made of ASCII letters,
/// digits and underscores builds its key as `(a, b)`, whatever `ctx` is.
pub proof fn lemma_key_list_leaves_context_out(
    item: ItemFnView,
    read: Readings,
    ctx: FnArgView,
    a: FnArgView,
    b: FnArgView,
)
    requires
        item.sig.inputs == seq![ctx, a, b],
        is_named(ctx),
        is_named(a),
        is_named(b),
        is_word(a->pat->name),
        is_word(b->pat->name),
        ctx->pat->name != a->pat->name,
        ctx->pat->name != b->pat->name,
    ensures
        rewrite(only_key(a->pat->name + ", "@ + b->pat->name), item, read) == rewritten_by_default(
            item,
            read,
            seq![type_text(a->ty), type_text(b->ty)],
            seq![a->pat->name, b->pat->name],
            seq![ctx->pat->name, a->pat->name, b->pat->name],
            1000,
        ),
{
    lemma_name_list_of_words(a->pat->name, b->pat->name);
    lemma_listed_parameters_make_the_key(
        item,
        read,
        a->pat->name + ", "@ + b->pat->name,
        ctx,
        a,
        b,
    );
}

/// The names of a list of bindings.
fn names_of(found: &Vec<(String, u8)>) -> (r: Vec<String>)
    ensures
        texts(r@) == binding_names(binding_views(found@)),
{
    let mut out: Vec<String> = Vec::new();
    let mut i: usize = 0;
    while i < found.len()
        invariant
            i <= found.len(),
            out@.len() == i,
            forall|j: int| 0 <= j < i ==> out@[j]@ == found@[j].0@,
        decreases found.len() - i,
    {
        out.push(found[i].0.clone());
        i = i + 1;
    }
    assert(texts(out@) =~= binding_names(binding_views(found@)));
    out
}

/// Picks the name of the cache, given the function's name in upper case.
pub fn name_cache(name: Option<String>, upper: String) -> (r: String)
    ensures
        r@ == cache_name(text_view(name), upper@),
{
    match name {
        Some(given) => given,
        None => upper,
    }
}

/// Picks the expression that builds the cache, given what became of the
/// construction block when it was read.
pub fn construct(derived: String, cache_create: &Option<String>, create_tokens: Option<String>) -> (r:
    Result<String, ConfigError>)
    ensures
        text_outcome(r) == construction(derived@, text_view(*cache_create), text_view(create_tokens)),
{
    match cache_create {
        None => Ok(derived),
        Some(_) => match create_tokens {
            Some(block) => Ok(block),
            None => Err(ConfigError::InvalidCreateBlock),
        },
    }
}

/// Writes the static that holds the cache.
pub fn cache_static(cache_ident: &str, cache_ty: &str, create: &str) -> (r: String)
    ensures
        r@ == static_text(cache_ident@, cache_ty@, create@),
{
    let mut out = String::from_str("static ");
    out.append(cache_ident);
    out.append(": ::cold_moka::once_cell::sync::Lazy<");
    out.append(cache_ty);
    out.append("> = ::cold_moka::once_cell::sync::Lazy::new(|| ");
    out.append(create);
    out.append(");");
    out
}

/// Writes the statement that builds the key.
pub fn key_statement(key_expr: &str) -> (r: String)
    ensures
        r@ == key_stmt_text(key_expr@),
{
    let mut out = String::from_str("let key = ");
    out.append(key_expr);
    out.append(";");
    out
}

/// Puts the rewritten function together from the function as written and
/// the parts of its new body.
pub fn assemble(item: ItemFn, inner: &str, cache_static: &str, key_stmt: &str, access: &str) -> (r:
    String)
    ensures
        r@ == assembled_text(item@, inner@, cache_static@, key_stmt@, access@),
{
    let ItemFn { attrs, vis, sig, block } = item;
    let mut out = spaced_texts(&attrs);
    if !vis.as_str().is_empty() {
        let mut shown = vis.clone();
        shown.append(" ");
        out.append(shown.as_str());
    } else {
        assert(out@ + Seq::<char>::empty() =~= out@);
    }
    let written = sig.declare(inner);
    let outer = get_mut_signature(sig);
    out.append(outer.to_text().as_str());
    out.append(" { ");
    out.append(written.as_str());
    out.append(" ");
    out.append(block.as_str());
    out.append(" ");
    out.append(cache_static);
    out.append(" ");
    out.append(key_stmt);
    out.append(" ");
    out.append(access);
    out.append(" }");
    out
}

/// Whether readings fit an annotation and a function: the name in upper case
/// is that of the function, and what the annotation does not give was not
/// read.
pub open spec fn fitting(read: Readings, args: MacroArgsView, item: ItemFnView) -> bool {
    &&& read.upper == uppercase(item.sig.ident)
    &&& explicit_key(args) is None ==> read.key_tokens is None
    &&& args.convert is None ==> read.convert_tokens is None
    &&& args.cache_create is None ==> read.create_tokens is None
}

/// Rewrites a function into a memoized one and hands back its text.
///
/// The result holds a cache that is built on first use, the function as
/// written under another name, and a wrapper under the function's own name
/// that builds the key and asks the cache, computing on a miss only.
/// `key` beside `convert` is the type of the key; `key` alone lists the
/// arguments that make up the key.
///
/// What the reading of a given key type, key expression or construction
/// expression comes to is the parser's affair: the result is the rewrite for
/// some outcome of each reading. Where none of them is given, nothing is
/// read.
pub fn cached(args: MacroArgs, input: ItemFn) -> (r: Result<String, ConfigError>)
    ensures
        exists|read: Readings|
            fitting(read, args@, input@) && text_outcome(r) == #[trigger] rewrite(
                args@,
                input@,
                read,
            ),
{
    let ghost unread = Readings {
        upper: uppercase(input@.sig.ident),
        key_tokens: None,
        convert_tokens: None,
        create_tokens: None,
    };
    let found = match get_input_names(&input.sig.inputs) {
        Ok(found) => found,
        Err(e) => {
            assert(rewrite(args@, input@, unread) == Err::<Seq<char>, ConfigError>(e));
            return Err(e);
        },
    };
    let input_tys = match get_input_types(&input.sig.inputs) {
        Ok(tys) => tys,
        Err(e) => {
            assert(rewrite(args@, input@, unread) == Err::<Seq<char>, ConfigError>(e));
            return Err(e);
        },
    };
    let call_args = match get_wrapped_type_for_function_call(&input.sig.inputs) {
        Ok(call_args) => call_args,
        Err(e) => {
            assert(rewrite(args@, input@, unread) == Err::<Seq<char>, ConfigError>(e));
            return Err(e);
        },
    };
    let is_async = input.sig.is_async;

    let output_ty = output_type(&input.sig.output);
    let return_ty = return_fallible_ty(&input.sig.output);
    let cache_value_ty = match find_value_type(return_ty, &input.sig.output, output_ty) {
        Ok(stored) => stored,
        Err(e) => {
            assert(rewrite(args@, input@, unread) == Err::<Seq<char>, ConfigError>(e));
            return Err(e);
        },
    };

    let input_names = names_of(&found);
    let ghost given = args@;
    let MacroArgs { size, ttl, key, convert, cache_type, cache_create, name } = args;
    let (key, filter) = match (key, &convert) {
        (Some(list), None) => (None, Some(name_filter(list.as_str()))),
        (key, _) => (key, None),
    };
    let made = make_cache_key_type(
        &key,
        &convert,
        &cache_type,
        &input_tys,
        &input_names,
        &filter,
    );
    let ghost (read_key, read_convert) = choose|
        key_tokens: Option<Seq<char>>,
        convert_tokens: Option<Seq<char>>,
    |
        (key is None ==> key_tokens is None) && (convert is None ==> convert_tokens is None)
            && plan_outcome(made) == #[trigger] key_plan(
            text_view(key),
            text_view(convert),
            text_view(cache_type),
            key_tokens,
            convert_tokens,
            type_texts(type_views(input_tys@)),
            texts(input_names@),
            filter_view(filter),
        );
    let (cache_key_ty, key_convert_block) = match made {
        Ok(plan) => plan,
        Err(e) => {
            let ghost read = Readings {
                upper: uppercase(input@.sig.ident),
                key_tokens: read_key,
                convert_tokens: read_convert,
                create_tokens: None,
            };
            assert(rewrite(given, input@, read) == Err::<Seq<char>, ConfigError>(e));
            return Err(e);
        },
    };

    let key_parts = select_texts(&input_names, &input_names, &filter);
    let size = cache_capacity(size, key_parts.len());
    let (cache_ty, derived) = cache_creation_statement(
        ttl,
        is_async,
        cache_value_ty.as_str(),
        cache_key_ty.as_str(),
        size as u64,
    );
    let create_tokens = match &cache_create {
        Some(text) => parse_block(text.as_str()),
        None => None,
    };
    let ghost read = Readings {
        upper: uppercase(input@.sig.ident),
        key_tokens: read_key,
        convert_tokens: read_convert,
        create_tokens: text_view(create_tokens),
    };
    let create = match construct(derived, &cache_create, create_tokens) {
        Ok(create) => create,
        Err(e) => {
            assert(rewrite(given, input@, read) == Err::<Seq<char>, ConfigError>(e));
            return Err(e);
        },
    };

    let cache_ident = name_cache(name, to_uppercase(input.sig.ident.as_str()));
    let mut no_cache_fn_ident = input.sig.ident.clone();
    no_cache_fn_ident.append("_inner");
    let holder = cache_static(cache_ident.as_str(), cache_ty.as_str(), create.as_str());
    let key_stmt = key_statement(key_convert_block.as_str());
    let function_call = inner_function_call(
        &call_args,
        return_ty,
        cache_ident.as_str(),
        no_cache_fn_ident.as_str(),
        is_async,
    );
    let ghost written = input@;
    let text = assemble(
        input,
        no_cache_fn_ident.as_str(),
        holder.as_str(),
        key_stmt.as_str(),
        function_call.as_str(),
    );
    assert(rewrite(given, written, read) == Ok::<Seq<char>, ConfigError>(text@));
    Ok(text)
}

} // verus!
