use moka_cached_proc::shape::{find_value_type, output_type};
use moka_cached_proc::{return_fallible_ty, ConfigError, GenericArg, RetTurnTy, ReturnType, TypeExpr};

fn path(prefix: &str, name: &str, args: Option<Vec<GenericArg>>) -> ReturnType {
    ReturnType::Type(TypeExpr::Path { prefix: prefix.to_string(), name: name.to_string(), args })
}

fn ty(name: &str) -> GenericArg {
    GenericArg::Type(TypeExpr::Path { prefix: String::new(), name: name.to_string(), args: None })
}

fn opaque(text: &str) -> ReturnType {
    ReturnType::Type(TypeExpr::Opaque { text: text.to_string() })
}

#[test]
fn no_return_type_is_plain() {
    assert_eq!(return_fallible_ty(&ReturnType::Default), RetTurnTy::Bare);
    assert_eq!(output_type(&ReturnType::Default), "()");
    assert_eq!(
        find_value_type(RetTurnTy::Bare, &ReturnType::Default, "()".to_string()),
        Ok("()".to_string())
    );
}

#[test]
fn result_is_fallible_behind_any_prefix() {
    let short = path("", "Result", Some(vec![ty("i32"), ty("String")]));
    let long = path("::std::result::", "Result", Some(vec![ty("i32"), ty("String")]));
    let alias = path("io::", "Result", Some(vec![ty("u8")]));
    assert_eq!(return_fallible_ty(&short), RetTurnTy::Result);
    assert_eq!(return_fallible_ty(&long), RetTurnTy::Result);
    assert_eq!(return_fallible_ty(&alias), RetTurnTy::Result);
    assert_eq!(return_fallible_ty(&path("", "Result", None)), RetTurnTy::Result);
}

#[test]
fn option_is_optional_behind_any_prefix() {
    assert_eq!(return_fallible_ty(&path("", "Option", Some(vec![ty("i32")]))), RetTurnTy::Option);
    assert_eq!(
        return_fallible_ty(&path("::std::option::", "Option", Some(vec![ty("i32")]))),
        RetTurnTy::Option
    );
}

#[test]
fn anything_else_is_plain() {
    assert_eq!(return_fallible_ty(&path("", "i32", None)), RetTurnTy::Bare);
    assert_eq!(return_fallible_ty(&path("", "Vec", Some(vec![ty("u8")]))), RetTurnTy::Bare);
    assert_eq!(return_fallible_ty(&path("Result::", "Inner", None)), RetTurnTy::Bare);
    assert_eq!(return_fallible_ty(&path("", "Results", None)), RetTurnTy::Bare);
    assert_eq!(return_fallible_ty(&path("", "result", None)), RetTurnTy::Bare);
    assert_eq!(return_fallible_ty(&opaque("(Result, Option)")), RetTurnTy::Bare);
    assert_eq!(return_fallible_ty(&opaque("Result")), RetTurnTy::Bare);
}

#[test]
fn a_plain_shape_stores_the_return_type() {
    let output = path("", "Vec", Some(vec![ty("u8")]));
    let text = output_type(&output);
    assert_eq!(text, "Vec<u8>");
    assert_eq!(find_value_type(RetTurnTy::Bare, &output, text), Ok("Vec<u8>".to_string()));
}

#[test]
fn a_wrapping_shape_stores_the_first_generic_argument() {
    let output = path("", "Result", Some(vec![ty("i32"), ty("String")]));
    assert_eq!(
        find_value_type(RetTurnTy::Result, &output, output_type(&output)),
        Ok("i32".to_string())
    );
    let output = path("::std::option::", "Option", Some(vec![ty("u32")]));
    assert_eq!(
        find_value_type(RetTurnTy::Option, &output, output_type(&output)),
        Ok("u32".to_string())
    );
    let nested = ReturnType::Type(TypeExpr::Path {
        prefix: String::new(),
        name: "Option".to_string(),
        args: Some(vec![GenericArg::Type(TypeExpr::Path {
            prefix: String::new(),
            name: "Vec".to_string(),
            args: Some(vec![ty("u8")]),
        })]),
    });
    assert_eq!(
        find_value_type(RetTurnTy::Option, &nested, output_type(&nested)),
        Ok("Vec<u8>".to_string())
    );
}

#[test]
fn a_wrapping_shape_needs_a_return_type() {
    assert_eq!(
        find_value_type(RetTurnTy::Result, &ReturnType::Default, "()".to_string()),
        Err(ConfigError::MissingReturnType)
    );
    assert_eq!(
        find_value_type(RetTurnTy::Option, &ReturnType::Default, "()".to_string()),
        Err(ConfigError::MissingReturnType)
    );
}

#[test]
fn a_wrapping_shape_needs_a_generic_argument() {
    let bare = path("", "Result", None);
    assert_eq!(
        find_value_type(RetTurnTy::Result, &bare, "Result".to_string()),
        Err(ConfigError::ReturnTypeNoInner)
    );
    let empty = path("", "Option", Some(vec![]));
    assert_eq!(
        find_value_type(RetTurnTy::Option, &empty, "Option<>".to_string()),
        Err(ConfigError::ReturnTypeNoInner)
    );
}

#[test]
fn a_wrapping_shape_needs_a_path() {
    assert_eq!(
        find_value_type(RetTurnTy::Option, &opaque("(i32, i32)"), "(i32, i32)".to_string()),
        Err(ConfigError::ReturnTypeTooComplex)
    );
}

#[test]
fn every_error_has_its_message() {
    assert_eq!(
        ConfigError::ReceiverUnsupported.message(),
        "methods (functions taking 'self') are not supported"
    );
    assert_eq!(ConfigError::UnsupportedPattern.message(), "unsupported pattern");
    assert_eq!(ConfigError::PatternTooDeep.message(), "parameter pattern is nested too deeply");
    assert_eq!(
        ConfigError::DepthExceedsType.message(),
        "parameter type has no generic argument to descend into"
    );
    assert_eq!(
        ConfigError::MissingReturnType.message(),
        "function must return something for result or option attributes"
    );
    assert_eq!(ConfigError::ReturnTypeTooComplex.message(), "function return type too complex");
    assert_eq!(ConfigError::ReturnTypeNoInner.message(), "function return type has no inner type");
    assert_eq!(ConfigError::KeyRequiresConvert.message(), "key requires convert to be set");
    assert_eq!(
        ConfigError::ConvertRequiresKeyOrType.message(),
        "convert requires key or type to be set"
    );
    assert_eq!(ConfigError::InvalidKeyType.message(), "unable to parse cache key type");
    assert_eq!(ConfigError::InvalidConvertBlock.message(), "unable to parse key convert block");
    assert_eq!(ConfigError::InvalidCreateBlock.message(), "unable to parse cache create block");
}
