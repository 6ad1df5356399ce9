//! The shape of a return type, and the type of the value that the cache stores.
use vstd::prelude::*;
use vstd::string::*;
use crate::error::{text_outcome, ConfigError};
use crate::text::same_text;
use crate::ty::{arg_text, type_text, TypeExpr, TypeView};

verus! {

/// How a function hands back its result.
#[derive(Debug, Clone, Copy, PartialEq, Eq, Structural)]
pub enum RetTurnTy {
    /// Success or failure; only a success is stored.
    Result,
    /// Present or absent; only a present value is stored.
    Option,
    /// A plain value, stored as it is.
    Bare,
}

/// The declared return type of a function.
#[derive(Debug, PartialEq, Eq)]
pub enum ReturnType {
    /// None is written: the function returns the unit type.
    Default,
    /// The type after the arrow.
    Type(TypeExpr),
}

/// What a [`ReturnType`] stands for.
pub enum ReturnTypeView {
    Default,
    Type(TypeView),
}

impl View for ReturnType {
    type V = ReturnTypeView;

    open spec fn view(&self) -> ReturnTypeView {
        match self {
            ReturnType::Default => ReturnTypeView::Default,
            ReturnType::Type(ty) => ReturnTypeView::Type(ty@),
        }
    }
}

/// The shape of a return type. Only the name of the last path segment counts,
/// so the standard types are found behind any module prefix and behind an
/// alias of the same name.
pub open spec fn classify(output: ReturnTypeView) -> RetTurnTy {
    match output {
        ReturnTypeView::Type(TypeView::Path { name, .. }) => if name == "Result"@ {
            RetTurnTy::Result
        } else if name == "Option"@ {
            RetTurnTy::Option
        } else {
            RetTurnTy::Bare
        },
        _ => RetTurnTy::Bare,
    }
}

/// The text of the type that a function returns: the unit type where none is
/// written.
pub open spec fn output_type_text(output: ReturnTypeView) -> Seq<char> {
    match output {
        ReturnTypeView::Default => "()"@,
        ReturnTypeView::Type(ty) => type_text(ty),
    }
}

/// The type of the value that the cache stores: the return type itself for a
/// plain shape, its first generic argument for the two wrapping shapes.
pub open spec fn stored_type(shape: RetTurnTy, output: ReturnTypeView, output_ty: Seq<char>) -> Result<
    Seq<char>,
    ConfigError,
> {
    match shape {
        RetTurnTy::Bare => Ok(output_ty),
        _ => match output {
            ReturnTypeView::Default => Err(ConfigError::MissingReturnType),
            ReturnTypeView::Type(TypeView::Opaque { .. }) => Err(ConfigError::ReturnTypeTooComplex),
            ReturnTypeView::Type(TypeView::Path { args, .. }) => match args {
                Some(list) => if list.len() > 0 {
                    Ok(arg_text(list[0]))
                } else {
                    Err(ConfigError::ReturnTypeNoInner)
                },
                None => Err(ConfigError::ReturnTypeNoInner),
            },
        },
    }
}

/// Classifies a return type as fallible, optional or plain.
pub fn return_fallible_ty(output: &ReturnType) -> (r: RetTurnTy)
    ensures
        r == classify(output@),
{
    match output {
        ReturnType::Type(TypeExpr::Path { name, .. }) => {
            if same_text(name.as_str(), "Result") {
                RetTurnTy::Result
            } else if same_text(name.as_str(), "Option") {
                RetTurnTy::Option
            } else {
                RetTurnTy::Bare
            }
        },
        _ => RetTurnTy::Bare,
    }
}

/// Writes the type that a function returns.
pub fn output_type(output: &ReturnType) -> (r: String)
    ensures
        r@ == output_type_text(output@),
{
    match output {
        ReturnType::Default => String::from_str("()"),
        ReturnType::Type(ty) => ty.to_text(),
    }
}

/// Finds the type of the value to store. `output_ty` is the text of the
/// return type, which a plain shape stores unchanged.
pub fn find_value_type(return_ty: RetTurnTy, output: &ReturnType, output_ty: String) -> (r: Result<
    String,
    ConfigError,
>)
    ensures
        text_outcome(r) == stored_type(return_ty, output@, output_ty@),
{
    match return_ty {
        RetTurnTy::Bare => Ok(output_ty),
        _ => match output {
            ReturnType::Default => Err(ConfigError::MissingReturnType),
            ReturnType::Type(TypeExpr::Opaque { .. }) => Err(ConfigError::ReturnTypeTooComplex),
            ReturnType::Type(TypeExpr::Path { args, .. }) => match args {
                Some(list) => if list.len() > 0 {
                    Ok(list[0].to_text())
                } else {
                    Err(ConfigError::ReturnTypeNoInner)
                },
                None => Err(ConfigError::ReturnTypeNoInner),
            },
        },
    }
}

} // verus!
