use moka_cached_proc::signature::{
    get_input_names, get_input_types, get_wrapped_type_for_function_call,
};
use moka_cached_proc::{
    cached, ConfigError, FieldPat, FnArg, GenericArg, ItemFn, MacroArgs, Pat, PatType, ReturnType,
    Signature, TypeExpr,
};
use quote::ToTokens;

fn text_of<T: ToTokens>(node: &T) -> String {
    node.to_token_stream().to_string()
}

fn texts_of<'a, T: ToTokens + 'a>(nodes: impl IntoIterator<Item = &'a T>) -> Vec<String> {
    nodes.into_iter().map(text_of).collect()
}

fn given(text: String) -> Option<String> {
    if text.is_empty() {
        None
    } else {
        Some(text)
    }
}

fn item_fn(input: &syn::ItemFn) -> ItemFn {
    ItemFn {
        attrs: texts_of(&input.attrs),
        vis: text_of(&input.vis),
        sig: signature(&input.sig),
        block: text_of(&input.block),
    }
}

fn signature(sig: &syn::Signature) -> Signature {
    Signature {
        constness: sig.constness.is_some(),
        is_async: sig.asyncness.is_some(),
        unsafety: sig.unsafety.is_some(),
        abi: sig.abi.as_ref().map(text_of),
        ident: sig.ident.to_string(),
        generics: given(text_of(&sig.generics)),
        inputs: sig.inputs.iter().map(fn_arg).collect(),
        variadic: sig.variadic.as_ref().map(text_of),
        output: match &sig.output {
            syn::ReturnType::Default => ReturnType::Default,
            syn::ReturnType::Type(_, ty) => ReturnType::Type(type_expr(ty)),
        },
        where_clause: sig.generics.where_clause.as_ref().map(text_of),
    }
}

fn fn_arg(arg: &syn::FnArg) -> FnArg {
    match arg {
        syn::FnArg::Receiver(receiver) => FnArg::Receiver { text: text_of(receiver) },
        syn::FnArg::Typed(typed) => FnArg::Typed(PatType {
            attrs: texts_of(&typed.attrs),
            pat: pat(&typed.pat),
            ty: type_expr(&typed.ty),
        }),
    }
}

fn qualified(qself: &Option<syn::QSelf>, path: &syn::Path) -> String {
    text_of(&syn::TypePath { qself: qself.clone(), path: path.clone() })
}

fn pat(pattern: &syn::Pat) -> Pat {
    match pattern {
        syn::Pat::Ident(p) if p.attrs.is_empty() => Pat::Ident {
            by_ref: p.by_ref.is_some(),
            mutable: p.mutability.is_some(),
            name: p.ident.to_string(),
            subpat: p.subpat.as_ref().map(|(_, sub)| text_of(sub)),
        },
        syn::Pat::Reference(p) if p.attrs.is_empty() => {
            Pat::Reference { mutable: p.mutability.is_some(), pat: Box::new(pat(&p.pat)) }
        }
        syn::Pat::Struct(p)
            if p.attrs.is_empty() && p.fields.iter().all(|field| field.attrs.is_empty()) =>
        {
            Pat::Struct {
                path: qualified(&p.qself, &p.path),
                fields: p
                    .fields
                    .iter()
                    .map(|field| FieldPat { member: text_of(&field.member), pat: pat(&field.pat) })
                    .collect(),
                rest: p.rest.is_some(),
            }
        }
        syn::Pat::Tuple(p) if p.attrs.is_empty() => {
            Pat::Tuple { elems: p.elems.iter().map(pat).collect() }
        }
        syn::Pat::TupleStruct(p) if p.attrs.is_empty() => Pat::TupleStruct {
            path: qualified(&p.qself, &p.path),
            elems: p.elems.iter().map(pat).collect(),
        },
        other => Pat::Other { text: text_of(other) },
    }
}

fn type_expr(ty: &syn::Type) -> TypeExpr {
    if let syn::Type::Path(path) = ty {
        if let Some(described) = type_path(path) {
            return described;
        }
    }
    TypeExpr::Opaque { text: text_of(ty) }
}

fn type_path(path: &syn::TypePath) -> Option<TypeExpr> {
    let last = path.path.segments.last()?;
    let args = match &last.arguments {
        syn::PathArguments::None => None,
        syn::PathArguments::AngleBracketed(list) => Some(
            list.args
                .iter()
                .map(|arg| match arg {
                    syn::GenericArgument::Type(inner) => GenericArg::Type(type_expr(inner)),
                    other => GenericArg::Opaque(text_of(other)),
                })
                .collect(),
        ),
        syn::PathArguments::Parenthesized(_) => return None,
    };
    let name = last.ident.to_string();
    let mut head = path.clone();
    head.path.segments.last_mut()?.arguments = syn::PathArguments::None;
    let prefix = text_of(&head).strip_suffix(&name)?.to_string();
    Some(TypeExpr::Path { prefix, name, args })
}

fn describe(source: &str) -> ItemFn {
    item_fn(&syn::parse_str::<syn::ItemFn>(source).unwrap())
}

fn options() -> MacroArgs {
    MacroArgs::default()
}

fn some(text: &str) -> Option<String> {
    Some(text.to_string())
}

fn squeeze(text: &str) -> String {
    text.chars().filter(|c| !c.is_whitespace()).collect()
}

fn expand(args: MacroArgs, source: &str) -> String {
    let text = cached(args, describe(source)).unwrap();
    let outer = syn::parse_str::<syn::ItemFn>(&text).unwrap();
    let written = syn::parse_str::<syn::ItemFn>(source).unwrap();
    assert_eq!(outer.sig.ident, written.sig.ident);
    assert_eq!(text_of(&outer.vis), text_of(&written.vis));
    assert_eq!(text_of(&outer.sig.output), text_of(&written.sig.output));
    assert_eq!(outer.sig.asyncness.is_some(), written.sig.asyncness.is_some());
    assert_eq!(outer.sig.inputs.len(), written.sig.inputs.len());
    assert_eq!(outer.attrs.len(), written.attrs.len());
    let fallible = text_of(&written.sig.output).contains("Result");
    assert_eq!(outer.block.stmts.len(), if fallible { 5 } else { 4 });
    match &outer.block.stmts[0] {
        syn::Stmt::Item(syn::Item::Fn(inner)) => {
            assert_eq!(inner.sig.ident, format!("{}_inner", written.sig.ident));
            assert_eq!(text_of(&inner.sig.inputs), text_of(&written.sig.inputs));
            assert_eq!(text_of(&inner.sig.output), text_of(&written.sig.output));
            assert_eq!(text_of(&inner.block), text_of(&written.block));
        }
        other => panic!("the body starts with {}", text_of(other)),
    }
    assert!(matches!(&outer.block.stmts[1], syn::Stmt::Item(syn::Item::Static(_))));
    assert!(matches!(&outer.block.stmts[2], syn::Stmt::Local(_)));
    if fallible {
        assert!(matches!(&outer.block.stmts[3], syn::Stmt::Local(_)));
        assert!(matches!(&outer.block.stmts[4], syn::Stmt::Expr(syn::Expr::Match(_), None)));
    } else {
        assert!(matches!(&outer.block.stmts[3], syn::Stmt::Expr(_, None)));
    }
    text
}

#[test]
fn pass() {
    let ttl = || MacroArgs { ttl: Some(13), ..options() };
    let sized = || MacroArgs { ttl: Some(13), size: Some(1337), ..options() };
    let keyed = |key: &str| MacroArgs { ttl: Some(13), size: Some(228), key: some(key), ..options() };
    let body = "{ i8 += 1; let x = i8 + 3; x as i32 }";
    for prefix in ["pub async fn", "pub fn"] {
        expand(options(), &format!("{prefix} cached() -> i32 {{ 1 + 2 }}"));
        expand(options(), &format!("{prefix} cached2(mut i8: i8) -> i32 {body}"));
        expand(options(), &format!("{prefix} cached3(mut i8: i8, _kek: u128) -> i32 {body}"));
        expand(ttl(), &format!("{prefix} cached4(mut i8: i8, _kek: u128) -> i32 {body}"));
        expand(sized(), &format!("{prefix} cached5(mut i8: i8, _kek: u128) -> i32 {body}"));
        expand(
            MacroArgs { convert: some("{i8}"), key: some("i8"), ..sized() },
            &format!("{prefix} cached6(mut i8: i8, _ctx: NoHash) -> i32 {body}"),
        );
        expand(
            keyed("arg"),
            &format!("{prefix} no_hash_1_arg(_ctx: NoHash, arg: u128) -> u128 {{ arg }}"),
        );
        expand(
            keyed("arg1, arg2"),
            &format!(
                "{prefix} no_hash_2_args(mut _ctx: NoHash, arg1: u128, arg2: u128) -> u128 \
                 {{ arg1 + arg2 }}"
            ),
        );
        expand(options(), &format!("{prefix} result(inp: i32) -> Result<i32, i32> {{ Ok(inp) }}"));
        expand(options(), &format!("{prefix} option(inp: i32) -> Option<i32> {{ Some(inp) }}"));
        expand(
            options(),
            &format!("{prefix} destruct(Wrapper(aaaaaa): Wrapper<i32>) -> i32 {{ aaaaaa }}"),
        );
        expand(
            options(),
            &format!(
                "{prefix} destruct_multiple(Wrapper(aaaaaa): Wrapper<i32>, \
                 Wrapper(bbbbbb): Wrapper<i32>) -> i32 {{ aaaaaa + bbbbbb }}"
            ),
        );
        expand(
            MacroArgs { key: some("aaaaaa, bbbbbb"), ..options() },
            &format!(
                "{prefix} destruct_multiple2(Wrapper(aaaaaa): Wrapper<i32>, \
                 Wrapper(bbbbbb): Wrapper<i32>, Wrapper(ccccccc): Wrapper<i32>) -> i32 \
                 {{ aaaaaa + bbbbbb + ccccccc }}"
            ),
        );
    }
}

#[test]
fn the_default_annotation_has_no_options() {
    assert_eq!(
        MacroArgs::default(),
        MacroArgs {
            size: None,
            ttl: None,
            key: None,
            convert: None,
            cache_type: None,
            cache_create: None,
            name: None,
        }
    );
}

#[test]
fn a_function_without_arguments_has_one_entry() {
    let text = expand(options(), "pub async fn cached() -> i32 { 1 + 2 }");
    assert!(text.contains(".max_capacity(1u64).build()"));
    assert!(text.contains("::cold_moka::moka::future::Cache<(), i32>"));
    assert!(text.contains("static CACHED:"));
    assert!(text.ends_with("let key = (); CACHED.get_with_by_ref(&key, cached_inner()).await }"));
    let sized = expand(MacroArgs { size: Some(5), ..options() }, "fn cached() -> i32 { 1 + 2 }");
    assert!(sized.contains(".max_capacity(5u64).build()"));
}

#[test]
fn a_mutable_argument_is_mutable_inside_only() {
    let text = expand(options(), "fn f(mut i: i8) -> i32 { i += 1; i as i32 }");
    let outer = syn::parse_str::<syn::ItemFn>(&text).unwrap();
    assert_eq!(squeeze(&text_of(&outer.sig)), "fnf(i:i8)->i32");
    match &outer.block.stmts[0] {
        syn::Stmt::Item(syn::Item::Fn(inner)) => {
            assert_eq!(squeeze(&text_of(&inner.sig)), "fnf_inner(muti:i8)->i32");
            assert_eq!(squeeze(&text_of(&inner.block)), "{i+=1;iasi32}");
        }
        _ => unreachable!(),
    }
    assert!(text.contains(".max_capacity(1000u64)"));
}

#[test]
fn a_destructured_argument_is_put_together_again() {
    let source = "fn destruct(Wrapper(x): Wrapper<i32>) -> i32 { x }";
    let item = describe(source);
    let found = get_input_names(&item.sig.inputs).unwrap();
    assert_eq!(found, vec![("x".to_string(), 1)]);
    let tys = get_input_types(&item.sig.inputs).unwrap();
    assert_eq!(tys.len(), 1);
    assert_eq!(tys[0].to_text(), "i32");
    assert_eq!(
        get_wrapped_type_for_function_call(&item.sig.inputs),
        Ok(vec!["Wrapper(x)".to_string()])
    );
    let text = expand(options(), source);
    assert!(text.contains("::cold_moka::moka::sync::Cache<(i32), i32>"));
    assert!(text
        .ends_with("let key = (x); DESTRUCT.get_with_by_ref(&key, || destruct_inner(Wrapper(x))) }"));
}

#[test]
fn the_default_key_is_the_tuple_of_all_arguments() {
    let text = expand(options(), "fn f(a: T1, b: T2) -> u8 { 0 }");
    assert!(text.contains("::cold_moka::moka::sync::Cache<(T1, T2), u8>"));
    assert!(text.contains(" let key = (a, b); "));
    assert!(text.contains(".max_capacity(1000u64)"));
}

#[test]
fn an_argument_left_out_of_the_key_does_not_change_it() {
    let keyed = || MacroArgs { key: some("a, b"), ..options() };
    let text = expand(keyed(), "fn f(ctx: Context, a: T1, b: T2) -> u8 { 0 }");
    assert!(text.contains("::cold_moka::moka::sync::Cache<(T1, T2), u8>"));
    assert!(text.contains(" let key = (a, b); "));
    assert!(text.ends_with("F.get_with_by_ref(&key, || f_inner(ctx, a, b)) }"));
    let other = expand(keyed(), "fn f(environment: &mut Other, a: T1, b: T2) -> u8 { 0 }");
    assert!(other.contains("::cold_moka::moka::sync::Cache<(T1, T2), u8>"));
    assert!(other.contains(" let key = (a, b); "));
    let changed = expand(keyed(), "fn f(ctx: Context, a: T1, c: T2) -> u8 { 0 }");
    assert!(changed.contains(" let key = (a); "));
    let unkeyed = expand(options(), "fn f(ctx: Context, a: T1, b: T2) -> u8 { 0 }");
    assert!(unkeyed.contains(" let key = (ctx, a, b); "));
}

#[test]
fn a_key_that_names_no_argument_leaves_one_entry() {
    let text = expand(
        MacroArgs { key: some("nothing"), ..options() },
        "fn f(ctx: Context) -> u8 { 0 }",
    );
    assert!(text.contains("Cache<(), u8>"));
    assert!(text.contains(".max_capacity(1u64)"));
    assert!(text.contains(" let key = (); "));
}

#[test]
fn key_beside_convert_is_the_key_type() {
    let args = MacroArgs { convert: some("{i8}"), key: some("i8"), ..options() };
    let text = expand(args, "async fn cached6(mut i8: i8, _ctx: NoHash) -> i32 { i8 as i32 }");
    assert!(text.contains("::cold_moka::moka::future::Cache<i8, i32>"));
    assert!(text.contains(" let key = { i8 }; "));
    assert!(text.contains(".max_capacity(1000u64)"));
    assert!(text.ends_with("CACHED6.get_with_by_ref(&key, cached6_inner(i8, _ctx)).await }"));
}

#[test]
fn the_cache_can_be_named_and_built_by_hand() {
    let args = MacroArgs {
        name: some("SQUARES"),
        cache_create: some("{ Cache::new(3) }"),
        ttl: Some(60),
        ..options()
    };
    let text = expand(args, "fn square(n: u64) -> u64 { n * n }");
    assert!(text.contains(
        "static SQUARES: ::cold_moka::once_cell::sync::Lazy<::cold_moka::moka::sync::Cache<(u64), u64>> \
         = ::cold_moka::once_cell::sync::Lazy::new(|| { Cache :: new (3) });"
    ));
    assert!(!text.contains("time_to_live"));
    assert!(text.ends_with("SQUARES.get_with_by_ref(&key, || square_inner(n)) }"));
}

#[test]
fn expiry_and_capacity_reach_the_builder() {
    let args = MacroArgs { ttl: Some(13), size: Some(1337), ..options() };
    let text = expand(args, "fn f(a: u8) -> u8 { a }");
    assert!(text.contains(
        "::cold_moka::moka::sync::Cache::builder().max_capacity(1337u64)\
         .time_to_live(::std::time::Duration::from_secs(13u64)).build()"
    ));
}

#[test]
fn optional_and_fallible_functions_store_the_inner_type() {
    let text = expand(options(), "fn option(inp: i32) -> Option<Vec<u8>> { None }");
    assert!(text.contains("Cache<(i32), Vec<u8>>"));
    assert!(text.ends_with("OPTION.optionally_get_with_by_ref(&key, || option_inner(inp)) }"));
    let text = expand(options(), "fn result(inp: i32) -> std::io::Result<u8> { Ok(0) }");
    assert!(text.contains("Cache<(i32), u8>"));
    assert!(text.contains("RESULT.try_get_with_by_ref(&key, || result_inner(inp));"));
}

#[test]
fn attributes_and_visibility_are_kept() {
    let text = expand(
        options(),
        "#[inline] #[doc = \"Adds one.\"] pub(crate) fn inc(n: u8) -> u8 { n + 1 }",
    );
    let outer = syn::parse_str::<syn::ItemFn>(&text).unwrap();
    assert_eq!(outer.attrs.len(), 2);
    assert_eq!(squeeze(&text_of(&outer.attrs[0])), "#[inline]");
    assert_eq!(squeeze(&text_of(&outer.vis)), "pub(crate)");
    let private = expand(options(), "fn inc(n: u8) -> u8 { n + 1 }");
    assert!(private.starts_with("fn inc(n: u8) -> u8 { fn inc_inner(n: u8) -> u8 { n + 1 } static INC"));
}

#[test]
fn the_name_of_the_cache_is_in_upper_case() {
    let text = expand(options(), "fn déjà_vu_2(n: u8) -> u8 { n }");
    assert!(text.contains("static DÉJÀ_VU_2:"));
    assert!(text.contains("DÉJÀ_VU_2.get_with_by_ref(&key, || déjà_vu_2_inner(n))"));
}

#[test]
fn qualifiers_generics_and_attributes_stay_on_the_wrapper() {
    let source = "pub const unsafe extern \"C\" fn f<T: Copy>(#[allow(unused)] mut a: T) -> u8 \
                  where T: Send { 0 }";
    let text = expand(options(), source);
    let outer = syn::parse_str::<syn::ItemFn>(&text).unwrap();
    let written = syn::parse_str::<syn::ItemFn>(source).unwrap();
    assert!(outer.sig.constness.is_some());
    assert!(outer.sig.unsafety.is_some());
    assert_eq!(text_of(&outer.sig.abi), text_of(&written.sig.abi));
    assert_eq!(text_of(&outer.sig.generics), text_of(&written.sig.generics));
    assert_eq!(
        text_of(&outer.sig.generics.where_clause),
        text_of(&written.sig.generics.where_clause)
    );
    assert_eq!(squeeze(&text_of(&outer.sig.inputs)), "#[allow(unused)]a:T");
    match &outer.block.stmts[0] {
        syn::Stmt::Item(syn::Item::Fn(inner)) => {
            assert_eq!(squeeze(&text_of(&inner.sig)), "fnf_inner(#[allow(unused)]muta:T)->u8");
        }
        _ => unreachable!(),
    }
    assert!(text.ends_with("F.get_with_by_ref(&key, || f_inner(a)) }"));
}

#[test]
fn a_variadic_argument_stays_on_the_wrapper() {
    let text = cached(options(), describe("unsafe extern \"C\" fn f(a: u8, ...) -> u8 { a }"))
        .unwrap();
    assert!(text.starts_with(
        "unsafe extern \"C\" fn f(a: u8, ...) -> u8 { fn f_inner(a: u8) -> u8 { a } static F"
    ));
    assert!(text.ends_with("let key = (a); F.get_with_by_ref(&key, || f_inner(a)) }"));
}

#[test]
fn names_with_ref_or_a_sub_pattern_take_part_in_the_key() {
    let item = describe("fn f(ref x: u8, mut whole @ Wrapper(_): Wrapper<u8>) -> u8 { 0 }");
    assert_eq!(
        get_input_names(&item.sig.inputs),
        Ok(vec![("x".to_string(), 0), ("whole".to_string(), 0)])
    );
    let text = cached(options(), item).unwrap();
    assert!(text.contains("Cache<(u8, Wrapper<u8>), u8>"));
    assert!(text.contains(" let key = (x, whole); "));
    assert!(squeeze(&text).starts_with("fnf(refx:u8,whole@Wrapper(_):Wrapper<u8>)->u8{"));
    assert!(squeeze(&text).contains("fnf_inner(refx:u8,mutwhole@Wrapper(_):Wrapper<u8>)->u8{0}"));
}

#[test]
fn a_path_behind_a_qualified_self_is_read_by_its_last_segment() {
    let source = "fn f(Wrapper(x): <T as Tr>::Holder<u16>) -> <T as Tr>::Result<u8, ()> { Ok(0) }";
    let item = describe(source);
    let tys = get_input_types(&item.sig.inputs).unwrap();
    assert_eq!(tys.len(), 1);
    assert_eq!(tys[0].to_text(), "u16");
    let text = expand(options(), source);
    assert!(text.contains("Cache<(u16), u8>"));
    assert!(text.contains("F.try_get_with_by_ref(&key, || f_inner(Wrapper(x)));"));
    let pattern = describe("fn f(<T as Tr>::Holder(x): u8) {}");
    assert_eq!(
        squeeze(&get_wrapped_type_for_function_call(&pattern.sig.inputs).unwrap()[0]),
        "<TasTr>::Holder(x)"
    );
}

#[test]
fn invalid_annotations_are_refused() {
    let refuse = |args: MacroArgs, source: &str| cached(args, describe(source)).unwrap_err();
    assert_eq!(refuse(options(), "fn f(&self) -> u8 { 0 }"), ConfigError::ReceiverUnsupported);
    assert_eq!(refuse(options(), "fn f(_: u8) -> u8 { 0 }"), ConfigError::UnsupportedPattern);
    assert_eq!(refuse(options(), "fn f(&x: &u8) -> u8 { 0 }"), ConfigError::DepthExceedsType);
    assert_eq!(
        refuse(options(), "fn f((a, b): (u8, u8)) -> u8 { 0 }"),
        ConfigError::DepthExceedsType
    );
    assert_eq!(refuse(options(), "fn f(a: u8) -> Option { None }"), ConfigError::ReturnTypeNoInner);
    assert_eq!(
        refuse(MacroArgs { convert: some("{ a }"), ..options() }, "fn f(a: u8) -> u8 { a }"),
        ConfigError::ConvertRequiresKeyOrType
    );
    assert_eq!(
        refuse(
            MacroArgs { convert: some("{ a }"), key: some("a, b"), ..options() },
            "fn f(a: u8) -> u8 { a }"
        ),
        ConfigError::InvalidKeyType
    );
    assert_eq!(
        refuse(
            MacroArgs { convert: some("a"), key: some("u8"), ..options() },
            "fn f(a: u8) -> u8 { a }"
        ),
        ConfigError::InvalidConvertBlock
    );
    assert_eq!(
        refuse(
            MacroArgs { convert: some("a"), cache_type: some("C"), ..options() },
            "fn f(a: u8) -> u8 { a }"
        ),
        ConfigError::InvalidConvertBlock
    );
    assert_eq!(
        refuse(MacroArgs { cache_create: some("Cache::new(1)"), ..options() }, "fn f() {}"),
        ConfigError::InvalidCreateBlock
    );
}

#[test]
fn the_first_invalid_thing_is_reported() {
    let refuse = |args: MacroArgs, source: &str| cached(args, describe(source)).unwrap_err();
    let everything =
        || MacroArgs { convert: some("a"), cache_create: some("b"), ..options() };
    assert_eq!(
        refuse(everything(), "fn f(&self, W(x): u8, _: u8) -> Option { None }"),
        ConfigError::ReceiverUnsupported
    );
    assert_eq!(
        refuse(everything(), "fn f(W(x): u8, _: u8) -> Option { None }"),
        ConfigError::DepthExceedsType
    );
    assert_eq!(
        refuse(everything(), "fn f(x: u8, _: u8) -> Option { None }"),
        ConfigError::UnsupportedPattern
    );
    assert_eq!(
        refuse(everything(), "fn f(x: u8) -> Option { None }"),
        ConfigError::ReturnTypeNoInner
    );
    assert_eq!(
        refuse(everything(), "fn f(x: u8) -> Option<u8> { None }"),
        ConfigError::ConvertRequiresKeyOrType
    );
    assert_eq!(
        refuse(
            MacroArgs { cache_type: some("C"), ..everything() },
            "fn f(x: u8) -> Option<u8> { None }"
        ),
        ConfigError::InvalidConvertBlock
    );
    assert_eq!(
        refuse(
            MacroArgs { cache_type: some("C"), convert: some("{ x }"), ..everything() },
            "fn f(x: u8) -> Option<u8> { None }"
        ),
        ConfigError::InvalidCreateBlock
    );
}
