//! Errors raised while a record declaration is turned into a column layout.
use vstd::prelude::*;

verus! {

/// A fault in a record declaration, found once when its layout is resolved.
#[derive(Clone, Copy, Debug, PartialEq, Eq, Structural)]
pub enum ConfigError {
    /// The record type has type parameters.
    GenericParameters,
    /// `Vec` is used with other than one angle-bracketed argument.
    InvalidVecArguments,
    /// `Option` is used with other than one angle-bracketed type argument.
    InvalidOptionArguments,
    /// No logical type can be inferred from the declared type.
    UnknownType,
    /// A type expression names no logical type.
    InvalidDtype,
    /// A `Datetime(..)` expression names no time unit.
    InvalidTimeUnit,
    /// A `Datetime(..)` expression has other than one argument.
    DatetimeArity,
    /// A field option has an unknown name, or a value of the wrong kind.
    InvalidAttributeParameter,
    /// A field sets the same option, or two encode or two decode strategies.
    DuplicateOption,
    /// A field with a custom encode function gives no explicit type.
    CustomNeedsDtype,
    /// A field's type is, or holds, a struct, null or unknown type, which no
    /// column stores.
    UnsupportedType,
}

pub open spec fn config_error_message(e: ConfigError) -> Seq<char> {
    match e {
        ConfigError::GenericParameters => "generic parameters are not allowed"@,
        ConfigError::InvalidVecArguments => "invalid arguments for Vec"@,
        ConfigError::InvalidOptionArguments => "invalid arguments for Option"@,
        ConfigError::UnknownType => "unknown type, please specify dtype explicitly"@,
        ConfigError::InvalidDtype => "invalid dtype"@,
        ConfigError::InvalidTimeUnit => "invalid time unit"@,
        ConfigError::DatetimeArity => "Datetime takes 1 argument"@,
        ConfigError::InvalidAttributeParameter => "invalid attribute parameter"@,
        ConfigError::DuplicateOption => "field option given more than once"@,
        ConfigError::CustomNeedsDtype => "dtype must be given explicitly with a custom conversion function"@,
        ConfigError::UnsupportedType => "columns of struct, null or unknown type are not supported"@,
    }
}

impl ConfigError {
    /// The message shown to the author of the declaration.
    pub fn message(&self) -> (r: &'static str)
        ensures
            r@ == config_error_message(*self),
    {
        match self {
            ConfigError::GenericParameters => "generic parameters are not allowed",
            ConfigError::InvalidVecArguments => "invalid arguments for Vec",
            ConfigError::InvalidOptionArguments => "invalid arguments for Option",
            ConfigError::UnknownType => "unknown type, please specify dtype explicitly",
            ConfigError::InvalidDtype => "invalid dtype",
            ConfigError::InvalidTimeUnit => "invalid time unit",
            ConfigError::DatetimeArity => "Datetime takes 1 argument",
            ConfigError::InvalidAttributeParameter => "invalid attribute parameter",
            ConfigError::DuplicateOption => "field option given more than once",
            ConfigError::CustomNeedsDtype => "dtype must be given explicitly with a custom conversion function",
            ConfigError::UnsupportedType => "columns of struct, null or unknown type are not supported",
        }
    }
}

} // verus!
