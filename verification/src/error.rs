//! What makes an annotation impossible to expand.
use vstd::prelude::*;
use crate::text::texts;

verus! {

/// A structurally invalid annotation. None of these can be recovered from:
/// the caller reports the message and gives up on the function.
#[derive(Debug, Clone, Copy, PartialEq, Eq, Structural)]
pub enum ConfigError {
    /// The function takes `self`.
    ReceiverUnsupported,
    /// A parameter's pattern cannot be handed on as an argument.
    UnsupportedPattern,
    /// A pattern nests deeper than a depth can count.
    PatternTooDeep,
    /// A binding lies deeper than the declared type has generic arguments.
    DepthExceedsType,
    /// An optional or fallible shape was asked of a function that returns nothing.
    MissingReturnType,
    /// The return type is no path, so it has no inner type to store.
    ReturnTypeTooComplex,
    /// The return type has no generic argument to store.
    ReturnTypeNoInner,
    /// A key type was given without an expression that builds the key.
    KeyRequiresConvert,
    /// A key expression was given with neither a key type nor a cache type.
    ConvertRequiresKeyOrType,
    /// The key type is no type.
    InvalidKeyType,
    /// The key expression is no block.
    InvalidConvertBlock,
    /// The construction expression is no block.
    InvalidCreateBlock,
}

impl ConfigError {
    /// The message of each error.
    pub open spec fn message_text(self) -> Seq<char> {
        match self {
            ConfigError::ReceiverUnsupported => "methods (functions taking 'self') are not supported"@,
            ConfigError::UnsupportedPattern => "unsupported pattern"@,
            ConfigError::PatternTooDeep => "parameter pattern is nested too deeply"@,
            ConfigError::DepthExceedsType => "parameter type has no generic argument to descend into"@,
            ConfigError::MissingReturnType => "function must return something for result or option attributes"@,
            ConfigError::ReturnTypeTooComplex => "function return type too complex"@,
            ConfigError::ReturnTypeNoInner => "function return type has no inner type"@,
            ConfigError::KeyRequiresConvert => "key requires convert to be set"@,
            ConfigError::ConvertRequiresKeyOrType => "convert requires key or type to be set"@,
            ConfigError::InvalidKeyType => "unable to parse cache key type"@,
            ConfigError::InvalidConvertBlock => "unable to parse key convert block"@,
            ConfigError::InvalidCreateBlock => "unable to parse cache create block"@,
        }
    }

    /// A description fit for a diagnostic.
    pub fn message(&self) -> (r: &'static str)
        ensures
            r@ == self.message_text(),
    {
        match self {
            ConfigError::ReceiverUnsupported => "methods (functions taking 'self') are not supported",
            ConfigError::UnsupportedPattern => "unsupported pattern",
            ConfigError::PatternTooDeep => "parameter pattern is nested too deeply",
            ConfigError::DepthExceedsType => "parameter type has no generic argument to descend into",
            ConfigError::MissingReturnType => "function must return something for result or option attributes",
            ConfigError::ReturnTypeTooComplex => "function return type too complex",
            ConfigError::ReturnTypeNoInner => "function return type has no inner type",
            ConfigError::KeyRequiresConvert => "key requires convert to be set",
            ConfigError::ConvertRequiresKeyOrType => "convert requires key or type to be set",
            ConfigError::InvalidKeyType => "unable to parse cache key type",
            ConfigError::InvalidConvertBlock => "unable to parse key convert block",
            ConfigError::InvalidCreateBlock => "unable to parse cache create block",
        }
    }
}

/// The text that an outcome stands for.
pub open spec fn text_outcome(r: Result<String, ConfigError>) -> Result<Seq<char>, ConfigError> {
    match r {
        Ok(text) => Ok(text@),
        Err(e) => Err(e),
    }
}

/// The texts that an outcome stands for.
pub open spec fn texts_outcome(r: Result<Vec<String>, ConfigError>) -> Result<
    Seq<Seq<char>>,
    ConfigError,
> {
    match r {
        Ok(items) => Ok(texts(items@)),
        Err(e) => Err(e),
    }
}

} // verus!
