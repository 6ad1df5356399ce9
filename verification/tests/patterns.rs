use moka_cached_proc::pattern::MAX_DEPTH;
use moka_cached_proc::{param_names, ConfigError, FieldPat, Pat};

fn ident(name: &str) -> Pat {
    Pat::Ident { by_ref: false, mutable: false, name: name.to_string(), subpat: None }
}

fn mut_ident(name: &str) -> Pat {
    Pat::Ident { by_ref: false, mutable: true, name: name.to_string(), subpat: None }
}

fn reference(pat: Pat) -> Pat {
    Pat::Reference { mutable: false, pat: Box::new(pat) }
}

fn tuple(elems: Vec<Pat>) -> Pat {
    Pat::Tuple { elems }
}

fn tuple_struct(path: &str, elems: Vec<Pat>) -> Pat {
    Pat::TupleStruct { path: path.to_string(), elems }
}

fn field(member: &str, pat: Pat) -> FieldPat {
    FieldPat { member: member.to_string(), pat }
}

fn structure(path: &str, fields: Vec<FieldPat>, rest: bool) -> Pat {
    Pat::Struct { path: path.to_string(), fields, rest }
}

fn other(text: &str) -> Pat {
    Pat::Other { text: text.to_string() }
}

fn names(found: Vec<(&str, u8)>) -> Result<Vec<(String, u8)>, ConfigError> {
    Ok(found.into_iter().map(|(name, depth)| (name.to_string(), depth)).collect())
}

#[test]
fn identifier_binds_itself_at_the_given_depth() {
    assert_eq!(param_names(&ident("x"), 0), names(vec![("x", 0)]));
    assert_eq!(param_names(&mut_ident("x"), 7), names(vec![("x", 7)]));
}

#[test]
fn reference_binds_one_layer_deeper() {
    assert_eq!(param_names(&reference(ident("x")), 0), names(vec![("x", 1)]));
    assert_eq!(param_names(&reference(reference(ident("x"))), 0), names(vec![("x", 2)]));
}

#[test]
fn tuple_binds_its_elements_in_order() {
    let pat = tuple(vec![ident("a"), ident("b"), ident("c")]);
    assert_eq!(param_names(&pat, 0), names(vec![("a", 1), ("b", 1), ("c", 1)]));
}

#[test]
fn tuple_struct_binds_its_elements_in_order() {
    let pat = tuple_struct("Wrapper", vec![ident("x")]);
    assert_eq!(param_names(&pat, 0), names(vec![("x", 1)]));
    let pair = tuple_struct("Pair", vec![ident("l"), ident("r")]);
    assert_eq!(param_names(&pair, 3), names(vec![("l", 4), ("r", 4)]));
}

#[test]
fn struct_binds_its_fields_in_order() {
    let pat = structure("Foo", vec![field("x", ident("x")), field("y", ident("renamed"))], false);
    assert_eq!(param_names(&pat, 0), names(vec![("x", 1), ("renamed", 1)]));
}

#[test]
fn nested_patterns_count_every_layer() {
    let pat = tuple(vec![
        ident("a"),
        tuple_struct("W", vec![reference(ident("b"))]),
        structure("S", vec![field("f", tuple(vec![ident("c"), ident("d")]))], true),
    ]);
    assert_eq!(param_names(&pat, 0), names(vec![("a", 1), ("b", 3), ("c", 3), ("d", 3)]));
}

#[test]
fn other_patterns_bind_nothing() {
    assert_eq!(param_names(&other("_"), 0), names(vec![]));
    let pat = tuple(vec![other("_"), ident("x"), other("..")]);
    assert_eq!(param_names(&pat, 0), names(vec![("x", 1)]));
    assert_eq!(param_names(&tuple(vec![]), 0), names(vec![]));
}

#[test]
fn a_pattern_at_the_deepest_layer_may_be_a_name_but_not_a_wrapper() {
    assert_eq!(param_names(&ident("x"), MAX_DEPTH), names(vec![("x", 255)]));
    assert_eq!(param_names(&reference(ident("x")), 254), names(vec![("x", 255)]));
    assert_eq!(param_names(&reference(ident("x")), MAX_DEPTH), Err(ConfigError::PatternTooDeep));
    assert_eq!(param_names(&tuple(vec![]), MAX_DEPTH), Err(ConfigError::PatternTooDeep));
}

#[test]
fn nesting_beyond_the_deepest_layer_is_refused() {
    let mut pat = ident("x");
    for _ in 0..255 {
        pat = reference(pat);
    }
    assert_eq!(param_names(&pat, 0), names(vec![("x", 255)]));
    let deeper = reference(pat);
    assert_eq!(param_names(&deeper, 0), Err(ConfigError::PatternTooDeep));
    let inside = tuple(vec![ident("a"), deeper]);
    assert_eq!(param_names(&inside, 0), Err(ConfigError::PatternTooDeep));
}

#[test]
fn stripping_takes_mut_from_every_binding() {
    let pat = tuple(vec![
        mut_ident("a"),
        tuple_struct("W", vec![mut_ident("b")]),
        structure("S", vec![field("f", mut_ident("c"))], false),
        Pat::Reference { mutable: true, pat: Box::new(mut_ident("d")) },
        other("_"),
    ]);
    let expected = tuple(vec![
        ident("a"),
        tuple_struct("W", vec![ident("b")]),
        structure("S", vec![field("f", ident("c"))], false),
        Pat::Reference { mutable: true, pat: Box::new(ident("d")) },
        other("_"),
    ]);
    assert_eq!(pat.stripped(), expected);
    assert_eq!(expected.stripped(), expected);
}

#[test]
fn stripping_changes_neither_names_nor_depths() {
    let pat = tuple(vec![
        mut_ident("a"),
        tuple_struct("W", vec![reference(mut_ident("b"))]),
        structure("S", vec![field("f", tuple(vec![mut_ident("c"), ident("d")]))], true),
    ]);
    assert_eq!(param_names(&pat.stripped(), 0), param_names(&pat, 0));
    assert_eq!(param_names(&pat.stripped(), 0), names(vec![("a", 1), ("b", 3), ("c", 3), ("d", 3)]));
    assert!(!pat.stripped().to_text().contains("mut"));
    assert!(pat.to_text().contains("mut a"));
}

#[test]
fn a_name_with_ref_or_a_sub_pattern_is_still_a_name() {
    let by_ref = Pat::Ident { by_ref: true, mutable: true, name: "x".to_string(), subpat: None };
    assert_eq!(param_names(&by_ref, 0), names(vec![("x", 0)]));
    assert_eq!(by_ref.to_text(), "ref mut x");
    assert_eq!(by_ref.stripped().to_text(), "ref x");
    let bound = Pat::Ident {
        by_ref: false,
        mutable: true,
        name: "whole".to_string(),
        subpat: Some("(a, b)".to_string()),
    };
    assert_eq!(param_names(&tuple(vec![bound]), 0), names(vec![("whole", 1)]));
    let bound = Pat::Ident {
        by_ref: true,
        mutable: false,
        name: "whole".to_string(),
        subpat: Some("(a, b)".to_string()),
    };
    assert_eq!(bound.to_text(), "ref whole @ (a, b)");
    assert_eq!(bound.stripped(), bound);
    let text = format!("fn f({}: T) {{}}", bound.to_text());
    assert!(syn::parse_str::<syn::ItemFn>(&text).is_ok());
}

#[test]
fn patterns_are_written_as_they_were_read() {
    assert_eq!(ident("x").to_text(), "x");
    assert_eq!(mut_ident("x").to_text(), "mut x");
    assert_eq!(reference(ident("x")).to_text(), "&x");
    assert_eq!(Pat::Reference { mutable: true, pat: Box::new(ident("x")) }.to_text(), "&mut x");
    assert_eq!(tuple(vec![]).to_text(), "()");
    assert_eq!(tuple(vec![ident("a")]).to_text(), "(a,)");
    assert_eq!(tuple(vec![ident("a"), mut_ident("b")]).to_text(), "(a, mut b)");
    assert_eq!(tuple_struct("Wrapper", vec![ident("x")]).to_text(), "Wrapper(x)");
    assert_eq!(tuple_struct("a::Pair", vec![ident("l"), ident("r")]).to_text(), "a::Pair(l, r)");
    assert_eq!(
        structure("Foo", vec![field("x", ident("x")), field("y", mut_ident("z"))], false).to_text(),
        "Foo { x: x, y: mut z }"
    );
    assert_eq!(structure("Foo", vec![field("x", ident("x"))], true).to_text(), "Foo { x: x, .. }");
    assert_eq!(structure("Foo", vec![], true).to_text(), "Foo { .. }");
    assert_eq!(structure("Foo", vec![], false).to_text(), "Foo {  }");
    assert_eq!(other("_").to_text(), "_");
}

#[test]
fn written_patterns_are_patterns_again() {
    let pat = tuple(vec![
        mut_ident("a"),
        tuple_struct("W", vec![reference(ident("b"))]),
        structure("S", vec![field("f", tuple(vec![ident("c")]))], true),
    ]);
    let text = format!("fn f({}: T) {{}}", pat.to_text());
    assert!(syn::parse_str::<syn::ItemFn>(&text).is_ok());
}
