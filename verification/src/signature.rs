//! A function's signature: its parameters, what they bind, the types of the
//! bindings, and the arguments that hand the parameters on.
use vstd::prelude::*;
use vstd::string::*;
use crate::error::{texts_outcome, ConfigError};
use crate::gather::{
    gather, lemma_gather_fails, lemma_gather_same_count, lemma_gather_singles, lemma_gather_step,
    lemma_gathered_singles,
};
use crate::pattern::{
    binding_views, bindings, binds_mutably, countable, countable_all, counted_bindings,
    found_outcome, inner_pats, is_plain_name, lemma_bindings_one_layer, lemma_without_mut_binds_plainly,
    lemma_without_mut_keeps_bindings, names_at, param_names, pat_text, pat_texts, without_mut,
    without_mut_all, wraps_names,
    Binding, Pat, PatView,
};
use crate::shape::{ReturnType, ReturnTypeView};
use crate::text::{copy_texts, each_spaced, join, join_texts, spaced_texts, text_view, texts};
use crate::ty::{
    first_type_argument, leaf_type, resolved_type, ty_from_depth_info, type_text, type_views,
    types_outcome, TypeExpr, TypeView,
};

verus! {

/// A parameter with a pattern and a declared type, behind its attributes.
#[derive(Debug, PartialEq, Eq)]
pub struct PatType {
    pub attrs: Vec<String>,
    pub pat: Pat,
    pub ty: TypeExpr,
}

/// One parameter of a function.
#[derive(Debug, PartialEq, Eq)]
pub enum FnArg {
    /// `self` in any form, by its text.
    Receiver { text: String },
    /// A pattern with its type.
    Typed(PatType),
}

/// The signature of a function. The rewrite reads the name, the parameters,
/// the return type and whether the function is asynchronous; the rest is
/// carried through to the wrapper as it is written.
#[derive(Debug, PartialEq, Eq)]
pub struct Signature {
    /// Whether the function is `const`.
    pub constness: bool,
    /// Whether the function is `async`.
    pub is_async: bool,
    /// Whether the function is `unsafe`.
    pub unsafety: bool,
    /// The ABI, such as `extern "C"`.
    pub abi: Option<String>,
    pub ident: String,
    /// The generic parameters with their angle brackets.
    pub generics: Option<String>,
    pub inputs: Vec<FnArg>,
    /// The variadic argument behind the parameters.
    pub variadic: Option<String>,
    pub output: ReturnType,
    /// The `where` clause with its keyword.
    pub where_clause: Option<String>,
}

/// What a [`FnArg`] stands for.
pub enum FnArgView {
    Receiver { text: Seq<char> },
    Typed { attrs: Seq<Seq<char>>, pat: PatView, ty: TypeView },
}

/// What a [`Signature`] stands for.
pub struct SignatureView {
    pub constness: bool,
    pub is_async: bool,
    pub unsafety: bool,
    pub abi: Option<Seq<char>>,
    pub ident: Seq<char>,
    pub generics: Option<Seq<char>>,
    pub inputs: Seq<FnArgView>,
    pub variadic: Option<Seq<char>>,
    pub output: ReturnTypeView,
    pub where_clause: Option<Seq<char>>,
}

impl View for FnArg {
    type V = FnArgView;

    open spec fn view(&self) -> FnArgView {
        match self {
            FnArg::Receiver { text } => FnArgView::Receiver { text: text@ },
            FnArg::Typed(typed) => FnArgView::Typed {
                attrs: texts(typed.attrs@),
                pat: typed.pat@,
                ty: typed.ty@,
            },
        }
    }
}

/// The views of a sequence of parameters.
pub open spec fn input_views(inputs: Seq<FnArg>) -> Seq<FnArgView> {
    Seq::new(inputs.len(), |i: int| inputs[i]@)
}

impl View for Signature {
    type V = SignatureView;

    open spec fn view(&self) -> SignatureView {
        SignatureView {
            constness: self.constness,
            is_async: self.is_async,
            unsafety: self.unsafety,
            abi: text_view(self.abi),
            ident: self.ident@,
            generics: text_view(self.generics),
            inputs: input_views(self.inputs@),
            variadic: text_view(self.variadic),
            output: self.output@,
            where_clause: text_view(self.where_clause),
        }
    }
}

/// The bindings of one parameter. A receiver has none to offer: methods are
/// not supported.
pub open spec fn arg_bindings(arg: FnArgView) -> Result<Seq<Binding>, ConfigError> {
    match arg {
        FnArgView::Receiver { .. } => Err(ConfigError::ReceiverUnsupported),
        FnArgView::Typed { pat, .. } => counted_bindings(pat, 0),
    }
}

/// The bindings of all parameters, in order, or the first failure.
pub open spec fn input_bindings(inputs: Seq<FnArgView>) -> Result<Seq<Binding>, ConfigError> {
    gather(Seq::new(inputs.len(), |i: int| arg_bindings(inputs[i])))
}

/// The types of the given bindings of a parameter of type `ty`: for each the
/// type found at its depth.
pub open spec fn binding_types(ty: TypeView, found: Seq<Binding>) -> Result<
    Seq<TypeView>,
    ConfigError,
> {
    gather(leaf_parts(ty, found))
}

/// The types of the bindings of one parameter.
pub open spec fn arg_types(arg: FnArgView) -> Result<Seq<TypeView>, ConfigError> {
    match arg {
        FnArgView::Receiver { .. } => Err(ConfigError::ReceiverUnsupported),
        FnArgView::Typed { pat, ty, .. } => match counted_bindings(pat, 0) {
            Ok(found) => binding_types(ty, found),
            Err(e) => Err(e),
        },
    }
}

/// The types of the bindings of all parameters, one for each binding and in
/// the order of the bindings, or the first failure.
pub open spec fn input_types(inputs: Seq<FnArgView>) -> Result<Seq<TypeView>, ConfigError> {
    gather(Seq::new(inputs.len(), |i: int| arg_types(inputs[i])))
}

/// The argument that hands one parameter on to a function with the same
/// parameters: the parameter's pattern without `mut`, read as an expression.
pub open spec fn call_argument(arg: FnArgView) -> Result<Seq<Seq<char>>, ConfigError> {
    match arg {
        FnArgView::Receiver { .. } => Err(ConfigError::ReceiverUnsupported),
        FnArgView::Typed { pat, .. } => match pat {
            PatView::Other { .. } => Err(ConfigError::UnsupportedPattern),
            _ => Ok(seq![pat_text(without_mut(pat))]),
        },
    }
}

/// The arguments for all parameters, in order, or the first failure.
pub open spec fn call_arguments(inputs: Seq<FnArgView>) -> Result<Seq<Seq<char>>, ConfigError> {
    gather(Seq::new(inputs.len(), |i: int| call_argument(inputs[i])))
}

/// The parts of the types of some bindings: for each binding the type found at
/// its depth, or the failure to find one.
pub open spec fn leaf_parts(ty: TypeView, found: Seq<Binding>) -> Seq<
    Result<Seq<TypeView>, ConfigError>,
> {
    Seq::new(
        found.len(),
        |i: int|
            match resolved_type(ty, found[i].1) {
                Ok(leaf) => Ok(seq![leaf]),
                Err(e) => Err(e),
            },
    )
}

/// Where the bindings of a parameter have types, there is one type for each
/// binding, in the order of the bindings, and it is the declared type narrowed
/// to the depth of the binding.
pub proof fn lemma_types_follow_bindings(ty: TypeView, found: Seq<Binding>)
    requires
        binding_types(ty, found) is Ok,
    ensures
        binding_types(ty, found)->Ok_0.len() == found.len(),
        forall|k: int|
            0 <= k < found.len() ==> leaf_type(ty, #[trigger] found[k].1) == Some(
                binding_types(ty, found)->Ok_0[k],
            ),
{
    let parts = leaf_parts(ty, found);
    lemma_gathered_singles(parts);
    assert forall|k: int| 0 <= k < found.len() implies leaf_type(ty, #[trigger] found[k].1)
        == Some(binding_types(ty, found)->Ok_0[k]) by {
        assert(parts[k] == Ok::<Seq<TypeView>, ConfigError>(
            seq![binding_types(ty, found)->Ok_0[k]],
        ));
        assert(seq![binding_types(ty, found)->Ok_0[k]][0] == binding_types(ty, found)->Ok_0[k]);
    }
}

/// Where the parameters have bindings and the bindings have types, there is
/// one type for each binding.
pub proof fn lemma_one_type_for_each_binding(inputs: Seq<FnArgView>)
    requires
        input_bindings(inputs) is Ok,
        input_types(inputs) is Ok,
    ensures
        input_types(inputs)->Ok_0.len() == input_bindings(inputs)->Ok_0.len(),
{
    let found = Seq::new(inputs.len(), |i: int| arg_bindings(inputs[i]));
    let tys = Seq::new(inputs.len(), |i: int| arg_types(inputs[i]));
    assert forall|i: int| 0 <= i < found.len() && found[i] is Ok && tys[i] is Ok implies (
    #[trigger] found[i])->Ok_0.len() == tys[i]->Ok_0.len() by {
        match inputs[i] {
            FnArgView::Typed { pat, ty, .. } => {
                lemma_types_follow_bindings(ty, counted_bindings(pat, 0)->Ok_0);
            },
            FnArgView::Receiver { .. } => {},
        }
    }
    lemma_gather_same_count(found, tys);
}

/// A parameter that is a name binds that name at depth 0, and the type of
/// the binding is the declared type.
pub proof fn lemma_plain_parameter(attrs: Seq<Seq<char>>, pat: PatView, ty: TypeView)
    requires
        pat is Ident,
    ensures
        arg_bindings(FnArgView::Typed { attrs, pat, ty }) == Ok::<Seq<Binding>, ConfigError>(
            seq![(pat->name, 0nat)],
        ),
        arg_types(FnArgView::Typed { attrs, pat, ty }) == Ok::<Seq<TypeView>, ConfigError>(
            seq![ty],
        ),
{
    let found = seq![(pat->name, 0nat)];
    lemma_gather_singles(leaf_parts(ty, found), seq![ty]);
}

/// A parameter whose pattern is one layer around plain names (a reference, a
/// tuple, a tuple struct or a struct) binds each name at depth 1, and the
/// type of each binding is the first generic argument of the declared type.
pub proof fn lemma_destructured_parameter(
    attrs: Seq<Seq<char>>,
    pat: PatView,
    ty: TypeView,
    inner: TypeView,
)
    requires
        wraps_names(pat),
        first_type_argument(ty) == Some(inner),
    ensures
        arg_bindings(FnArgView::Typed { attrs, pat, ty }) == Ok::<Seq<Binding>, ConfigError>(
            names_at(inner_pats(pat), 1),
        ),
        arg_types(FnArgView::Typed { attrs, pat, ty }) == Ok::<Seq<TypeView>, ConfigError>(
            Seq::new(inner_pats(pat).len(), |i: int| inner),
        ),
{
    lemma_bindings_one_layer(pat, 0);
    let found = names_at(inner_pats(pat), 1);
    assert(countable(pat, 0)) by {
        let inside = inner_pats(pat);
        assert forall|i: int| 0 <= i < inside.len() implies countable(#[trigger] inside[i], 1) by {
            assert(inside[i] is Ident);
        }
        if pat is Reference {
            assert(countable(inside[0], 1));
        } else {
            assert(countable_all(inside, 1));
        }
    }
    assert(leaf_type(ty, 1) == Some(inner)) by {
        assert(leaf_type(inner, 0) == Some(inner));
    }
    lemma_gather_singles(leaf_parts(ty, found), Seq::new(inner_pats(pat).len(), |i: int| inner));
}

/// A parameter that takes a tuple struct apart into plain names is handed on
/// as the struct put together again from those names, whether or not the
/// names were marked `mut`.
pub proof fn lemma_tuple_struct_argument(
    attrs: Seq<Seq<char>>,
    path: Seq<char>,
    elems: Seq<PatView>,
    ty: TypeView,
)
    requires
        forall|i: int| 0 <= i < elems.len() ==> is_plain_name(#[trigger] elems[i]),
    ensures
        call_argument(
            FnArgView::Typed { attrs, pat: PatView::TupleStruct { path, elems }, ty },
        ) == Ok::<
            Seq<Seq<char>>,
            ConfigError,
        >(
            seq![
                path + "("@ + join(Seq::new(elems.len(), |i: int| elems[i]->Ident_name), ", "@)
                    + ")"@,
            ],
        ),
{
    let names = Seq::new(elems.len(), |i: int| elems[i]->Ident_name);
    let plain = without_mut_all(elems);
    assert forall|i: int| 0 <= i < elems.len() implies pat_text(#[trigger] plain[i])
        == names[i] by {
        assert(is_plain_name(elems[i]));
        assert(pat_text(without_mut(elems[i])) =~= names[i]);
    }
    assert(pat_texts(plain) =~= names);
}

/// Lists the names that the parameters bind, each with its depth.
pub fn get_input_names(inputs: &Vec<FnArg>) -> (r: Result<Vec<(String, u8)>, ConfigError>)
    ensures
        found_outcome(r) == input_bindings(input_views(inputs@)),
{
    let ghost parts = Seq::new(inputs@.len(), |i: int| arg_bindings(input_views(inputs@)[i]));
    let mut found: Vec<(String, u8)> = Vec::new();
    let mut i: usize = 0;
    assert(binding_views(found@) =~= Seq::<Binding>::empty());
    while i < inputs.len()
        invariant
            i <= inputs.len(),
            parts == Seq::new(inputs@.len(), |i: int| arg_bindings(input_views(inputs@)[i])),
            gather(parts.take(i as int)) == Ok::<Seq<Binding>, ConfigError>(binding_views(found@)),
        decreases inputs.len() - i,
    {
        proof {
            lemma_gather_step(parts, i as int);
        }
        match &inputs[i] {
            FnArg::Receiver { .. } => {
                proof {
                    lemma_gather_fails(parts, i + 1);
                }
                return Err(ConfigError::ReceiverUnsupported);
            },
            FnArg::Typed(typed) => match param_names(&typed.pat, 0) {
                Ok(more) => {
                    let mut more = more;
                    let ghost before = found@;
                    let ghost added = more@;
                    found.append(&mut more);
                    assert(binding_views(found@) =~= binding_views(before) + binding_views(added));
                },
                Err(e) => {
                    proof {
                        lemma_gather_fails(parts, i + 1);
                    }
                    return Err(e);
                },
            },
        }
        i = i + 1;
    }
    assert(parts.take(inputs.len() as int) =~= parts);
    Ok(found)
}

/// The types of the given bindings of a parameter of type `ty`.
fn types_of_bindings(ty: &TypeExpr, found: &Vec<(String, u8)>) -> (r: Result<
    Vec<TypeExpr>,
    ConfigError,
>)
    ensures
        types_outcome(r) == binding_types(ty@, binding_views(found@)),
{
    let ghost parts = leaf_parts(ty@, binding_views(found@));
    let mut tys: Vec<TypeExpr> = Vec::new();
    let mut i: usize = 0;
    assert(type_views(tys@) =~= Seq::<TypeView>::empty());
    while i < found.len()
        invariant
            i <= found.len(),
            parts == leaf_parts(ty@, binding_views(found@)),
            gather(parts.take(i as int)) == Ok::<Seq<TypeView>, ConfigError>(type_views(tys@)),
        decreases found.len() - i,
    {
        proof {
            lemma_gather_step(parts, i as int);
        }
        match ty_from_depth_info(found[i].1, ty) {
            Ok(leaf) => {
                let ghost before = tys@;
                tys.push(leaf);
                assert(type_views(tys@) =~= type_views(before) + seq![leaf@]);
            },
            Err(e) => {
                proof {
                    lemma_gather_fails(parts, i + 1);
                }
                return Err(e);
            },
        }
        i = i + 1;
    }
    assert(parts.take(found.len() as int) =~= parts);
    Ok(tys)
}

/// Lists the types that make up the default key: for each binding of each
/// parameter, the parameter's type narrowed to the binding's depth.
pub fn get_input_types(inputs: &Vec<FnArg>) -> (r: Result<Vec<TypeExpr>, ConfigError>)
    ensures
        types_outcome(r) == input_types(input_views(inputs@)),
{
    let ghost parts = Seq::new(inputs@.len(), |i: int| arg_types(input_views(inputs@)[i]));
    let mut tys: Vec<TypeExpr> = Vec::new();
    let mut i: usize = 0;
    assert(type_views(tys@) =~= Seq::<TypeView>::empty());
    while i < inputs.len()
        invariant
            i <= inputs.len(),
            parts == Seq::new(inputs@.len(), |i: int| arg_types(input_views(inputs@)[i])),
            gather(parts.take(i as int)) == Ok::<Seq<TypeView>, ConfigError>(type_views(tys@)),
        decreases inputs.len() - i,
    {
        proof {
            lemma_gather_step(parts, i as int);
        }
        match &inputs[i] {
            FnArg::Receiver { .. } => {
                proof {
                    lemma_gather_fails(parts, i + 1);
                }
                return Err(ConfigError::ReceiverUnsupported);
            },
            FnArg::Typed(typed) => match param_names(&typed.pat, 0) {
                Ok(found) => match types_of_bindings(&typed.ty, &found) {
                    Ok(more) => {
                        let mut more = more;
                        let ghost before = tys@;
                        let ghost added = more@;
                        tys.append(&mut more);
                        assert(type_views(tys@) =~= type_views(before) + type_views(added));
                    },
                    Err(e) => {
                        proof {
                            lemma_gather_fails(parts, i + 1);
                        }
                        return Err(e);
                    },
                },
                Err(e) => {
                    proof {
                        lemma_gather_fails(parts, i + 1);
                    }
                    return Err(e);
                },
            },
        }
        i = i + 1;
    }
    assert(parts.take(inputs.len() as int) =~= parts);
    Ok(tys)
}

/// The parameter's pattern with `mut` taken from its bindings.
pub fn strip_mut_from_pat(pat_type: &PatType) -> (r: Pat)
    ensures
        r@ == without_mut(pat_type.pat@),
{
    pat_type.pat.stripped()
}

/// Writes the arguments of the call that hands every parameter on, so that
/// a destructured parameter is put together again.
pub fn get_wrapped_type_for_function_call(inputs: &Vec<FnArg>) -> (r: Result<
    Vec<String>,
    ConfigError,
>)
    ensures
        texts_outcome(r) == call_arguments(input_views(inputs@)),
{
    let ghost parts = Seq::new(inputs@.len(), |i: int| call_argument(input_views(inputs@)[i]));
    let mut args: Vec<String> = Vec::new();
    let mut i: usize = 0;
    assert(texts(args@) =~= Seq::<Seq<char>>::empty());
    while i < inputs.len()
        invariant
            i <= inputs.len(),
            parts == Seq::new(inputs@.len(), |i: int| call_argument(input_views(inputs@)[i])),
            gather(parts.take(i as int)) == Ok::<Seq<Seq<char>>, ConfigError>(texts(args@)),
        decreases inputs.len() - i,
    {
        proof {
            lemma_gather_step(parts, i as int);
        }
        match &inputs[i] {
            FnArg::Receiver { .. } => {
                proof {
                    lemma_gather_fails(parts, i + 1);
                }
                return Err(ConfigError::ReceiverUnsupported);
            },
            FnArg::Typed(typed) => match strip_mut_from_pat(typed) {
                Pat::Other { .. } => {
                    proof {
                        lemma_gather_fails(parts, i + 1);
                    }
                    return Err(ConfigError::UnsupportedPattern);
                },
                plain => {
                    let ghost before = args@;
                    let arg = plain.to_text();
                    args.push(arg);
                    assert(texts(args@) =~= texts(before) + seq![arg@]);
                },
            },
        }
        i = i + 1;
    }
    assert(parts.take(inputs.len() as int) =~= parts);
    Ok(args)
}

/// A parameter with `mut` taken from the bindings of its pattern.
pub open spec fn plain_arg(arg: FnArgView) -> FnArgView {
    match arg {
        FnArgView::Receiver { text } => FnArgView::Receiver { text },
        FnArgView::Typed { attrs, pat, ty } => FnArgView::Typed {
            attrs,
            pat: without_mut(pat),
            ty,
        },
    }
}

/// A signature with `mut` taken from the bindings of every parameter, and
/// nothing else changed.
pub open spec fn plain_signature(sig: SignatureView) -> SignatureView {
    SignatureView {
        inputs: Seq::new(sig.inputs.len(), |i: int| plain_arg(sig.inputs[i])),
        ..sig
    }
}

/// Whether some parameter of a signature marks a binding `mut`.
pub open spec fn has_mut_parameter(sig: SignatureView) -> bool {
    exists|i: int|
        0 <= i < sig.inputs.len() && (#[trigger] sig.inputs[i] matches FnArgView::Typed { pat, .. }
            && binds_mutably(pat))
}

/// The signature without `mut` marks no binding `mut`, and its parameters
/// bind the names of the written parameters at the same depths.
pub proof fn lemma_plain_signature(sig: SignatureView)
    ensures
        !has_mut_parameter(plain_signature(sig)),
        input_bindings(plain_signature(sig).inputs) == input_bindings(sig.inputs),
{
    let plain = plain_signature(sig);
    assert forall|i: int| 0 <= i < plain.inputs.len() implies !(
    #[trigger] plain.inputs[i] matches FnArgView::Typed { pat, .. } && binds_mutably(pat)) by {
        if let FnArgView::Typed { pat, .. } = sig.inputs[i] {
            lemma_without_mut_binds_plainly(pat);
        }
    }
    let written = Seq::new(sig.inputs.len(), |i: int| arg_bindings(sig.inputs[i]));
    let stripped = Seq::new(plain.inputs.len(), |i: int| arg_bindings(plain.inputs[i]));
    assert forall|i: int| 0 <= i < written.len() implies written[i] == stripped[i] by {
        if let FnArgView::Typed { pat, .. } = sig.inputs[i] {
            lemma_without_mut_keeps_bindings(pat, 0);
        }
    }
    assert(written =~= stripped);
}

/// The text of a parameter.
pub open spec fn fn_arg_text(arg: FnArgView) -> Seq<char> {
    match arg {
        FnArgView::Receiver { text } => text,
        FnArgView::Typed { attrs, pat, ty } => each_spaced(attrs) + pat_text(pat) + ": "@
            + type_text(ty),
    }
}

/// The texts of a sequence of parameters.
pub open spec fn input_texts(inputs: Seq<FnArgView>) -> Seq<Seq<char>> {
    Seq::new(inputs.len(), |i: int| fn_arg_text(inputs[i]))
}

/// The arrow and the return type, where one is written.
pub open spec fn output_suffix(output: ReturnTypeView) -> Seq<char> {
    match output {
        ReturnTypeView::Default => Seq::empty(),
        ReturnTypeView::Type(ty) => " -> "@ + type_text(ty),
    }
}

/// The word `async` with its space, where it is wanted.
pub open spec fn async_word(is_async: bool) -> Seq<char> {
    if is_async {
        "async "@
    } else {
        Seq::empty()
    }
}

/// The word `const` with its space, where it is wanted.
pub open spec fn const_word(constness: bool) -> Seq<char> {
    if constness {
        "const "@
    } else {
        Seq::empty()
    }
}

/// The word `unsafe` with its space, where it is wanted.
pub open spec fn unsafe_word(unsafety: bool) -> Seq<char> {
    if unsafety {
        "unsafe "@
    } else {
        Seq::empty()
    }
}

/// A text followed by a space, where there is one.
pub open spec fn leading_text(text: Option<Seq<char>>) -> Seq<char> {
    match text {
        Some(t) => t + " "@,
        None => Seq::empty(),
    }
}

/// A text, where there is one.
pub open spec fn given_text(text: Option<Seq<char>>) -> Seq<char> {
    match text {
        Some(t) => t,
        None => Seq::empty(),
    }
}

/// A text behind a space, where there is one.
pub open spec fn trailing_text(text: Option<Seq<char>>) -> Seq<char> {
    match text {
        Some(t) => " "@ + t,
        None => Seq::empty(),
    }
}

/// What stands between the round brackets: the parameters and, behind them,
/// the variadic argument where there is one.
pub open spec fn bracket_texts(inputs: Seq<FnArgView>, variadic: Option<Seq<char>>) -> Seq<
    Seq<char>,
> {
    match variadic {
        Some(text) => input_texts(inputs).push(text),
        None => input_texts(inputs),
    }
}

/// The head of a function as it is written: the qualifiers in their order,
/// the name with the generic parameters, the parameters, the return type and
/// the `where` clause.
pub open spec fn signature_text(sig: SignatureView) -> Seq<char> {
    const_word(sig.constness) + async_word(sig.is_async) + unsafe_word(sig.unsafety)
        + leading_text(sig.abi) + "fn "@ + sig.ident + given_text(sig.generics) + "("@ + join(
        bracket_texts(sig.inputs, sig.variadic),
        ", "@,
    ) + ")"@ + output_suffix(sig.output) + trailing_text(sig.where_clause)
}

/// The head of the inner function: under the name `ident`, with the
/// parameters and the return type of `sig`, asynchronous where `sig` is, and
/// with nothing else of it.
pub open spec fn declaration_text(sig: SignatureView, ident: Seq<char>) -> Seq<char> {
    async_word(sig.is_async) + "fn "@ + ident + "("@ + join(input_texts(sig.inputs), ", "@) + ")"@
        + output_suffix(sig.output)
}

/// Takes `mut` from the parameters of a signature. The wrapper only hands its
/// parameters on, so `mut` on them would draw a warning; the
/// inner function keeps them.
pub fn get_mut_signature(signature: Signature) -> (r: Signature)
    ensures
        r@ == plain_signature(signature@),
{
    let mut plain: Vec<FnArg> = Vec::new();
    let mut i: usize = 0;
    while i < signature.inputs.len()
        invariant
            i <= signature.inputs.len(),
            plain@.len() == i,
            forall|j: int| 0 <= j < i ==> plain@[j]@ == plain_arg(signature.inputs@[j]@),
        decreases signature.inputs.len() - i,
    {
        let item = match &signature.inputs[i] {
            FnArg::Receiver { text } => FnArg::Receiver { text: text.clone() },
            FnArg::Typed(typed) => FnArg::Typed(
                PatType {
                    attrs: copy_texts(&typed.attrs),
                    pat: strip_mut_from_pat(typed),
                    ty: typed.ty.duplicate(),
                },
            ),
        };
        plain.push(item);
        i = i + 1;
    }
    assert(input_views(plain@) =~= plain_signature(signature@).inputs);
    Signature {
        constness: signature.constness,
        is_async: signature.is_async,
        unsafety: signature.unsafety,
        abi: signature.abi,
        ident: signature.ident,
        generics: signature.generics,
        inputs: plain,
        variadic: signature.variadic,
        output: signature.output,
        where_clause: signature.where_clause,
    }
}

/// Writes `word` where it is wanted, and nothing else.
fn optional_word(wanted: bool, word: &str) -> (r: String)
    ensures
        r@ == (if wanted {
            word@
        } else {
            Seq::empty()
        }),
{
    if wanted {
        String::from_str(word)
    } else {
        String::new()
    }
}

/// Writes the arrow and the return type, where one is written.
fn output_arrow(output: &ReturnType) -> (r: String)
    ensures
        r@ == output_suffix(output@),
{
    match output {
        ReturnType::Default => String::new(),
        ReturnType::Type(ty) => {
            let mut arrow = String::from_str(" -> ");
            arrow.append(ty.to_text().as_str());
            arrow
        },
    }
}

/// Writes each of several parameters out.
fn inputs_to_texts(inputs: &Vec<FnArg>) -> (r: Vec<String>)
    ensures
        texts(r@) == input_texts(input_views(inputs@)),
{
    let mut parts: Vec<String> = Vec::new();
    let mut i: usize = 0;
    while i < inputs.len()
        invariant
            i <= inputs.len(),
            parts@.len() == i,
            forall|j: int| 0 <= j < i ==> parts@[j]@ == fn_arg_text(inputs@[j]@),
        decreases inputs.len() - i,
    {
        let part = match &inputs[i] {
            FnArg::Receiver { text } => text.clone(),
            FnArg::Typed(typed) => {
                let mut part = spaced_texts(&typed.attrs);
                part.append(typed.pat.to_text().as_str());
                part.append(": ");
                part.append(typed.ty.to_text().as_str());
                part
            },
        };
        parts.push(part);
        i = i + 1;
    }
    assert(texts(parts@) =~= input_texts(input_views(inputs@)));
    parts
}

impl Signature {
    /// Writes the head of the inner function, under the name `ident`.
    pub fn declare(&self, ident: &str) -> (r: String)
        ensures
            r@ == declaration_text(self@, ident@),
    {
        let parts = inputs_to_texts(&self.inputs);
        let mut out = optional_word(self.is_async, "async ");
        out.append("fn ");
        out.append(ident);
        out.append("(");
        out.append(join_texts(&parts, ", ").as_str());
        out.append(")");
        out.append(output_arrow(&self.output).as_str());
        out
    }

    /// Writes the head of this function as it is written.
    pub fn to_text(&self) -> (r: String)
        ensures
            r@ == signature_text(self@),
    {
        let mut parts = inputs_to_texts(&self.inputs);
        match &self.variadic {
            Some(text) => {
                let ghost before = parts@;
                parts.push(text.clone());
                assert(texts(parts@) =~= texts(before).push(text@));
            },
            None => {},
        }
        let mut out = optional_word(self.constness, "const ");
        out.append(optional_word(self.is_async, "async ").as_str());
        out.append(optional_word(self.unsafety, "unsafe ").as_str());
        match &self.abi {
            Some(text) => {
                let mut abi = text.clone();
                abi.append(" ");
                out.append(abi.as_str());
            },
            None => {
                assert(out@ + Seq::<char>::empty() =~= out@);
            },
        }
        out.append("fn ");
        out.append(self.ident.as_str());
        match &self.generics {
            Some(text) => {
                out.append(text.as_str());
            },
            None => {
                assert(out@ + Seq::<char>::empty() =~= out@);
            },
        }
        out.append("(");
        out.append(join_texts(&parts, ", ").as_str());
        out.append(")");
        out.append(output_arrow(&self.output).as_str());
        match &self.where_clause {
            Some(text) => {
                let mut clause = String::from_str(" ");
                clause.append(text.as_str());
                out.append(clause.as_str());
            },
            None => {
                assert(out@ + Seq::<char>::empty() =~= out@);
            },
        }
        out
    }
}

} // verus!
