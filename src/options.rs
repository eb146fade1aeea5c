//! Per-field options: how a field's column is typed and converted.
use vstd::prelude::*;

use crate::dtype::{DType, DataType};
use crate::error::ConfigError;
use crate::expr::{expr_dtype, expr_to_dtype, DtypeExpr};
use crate::rtype::RustType;
use crate::text::same_text;

verus! {

/// The value written after an option's name.
#[derive(Debug, PartialEq, Eq)]
pub enum OptionValue {
    /// No value: the option is a bare name.
    Empty,
    /// A type, as in `into = String`.
    Type(RustType),
    /// A type expression, as in `dtype = List(Utf8)`.
    Expr(DtypeExpr),
    /// A boolean literal, as in `optional = true`.
    Bool(bool),
    /// The path of a function, as in `serialize_with = to_text`.
    Path(String),
}

/// What kind of value an option takes.
#[derive(Clone, Copy, Debug, PartialEq, Eq, Structural)]
pub enum ValueKind {
    Empty,
    Type,
    Expr,
    Bool,
    Path,
}

/// One option of a field.
#[derive(Debug, PartialEq, Eq)]
pub enum AttrOption {
    /// Encode through a value conversion into the given type.
    Into(RustType),
    /// Encode through a reference conversion into the given type.
    AsRef(RustType),
    /// The column's logical type, given explicitly.
    Dtype(DataType),
    /// Whether the column may hold absent entries, given explicitly.
    Optional(bool),
    /// Decode through a fallible conversion, by value or by reference.
    TryFrom { borrow: bool },
    /// Encode through a user function, by value or by reference.
    SerializeWith { fun: String, borrow: bool },
    /// Decode through a fallible user function, by value or by reference.
    DeserializeWith { fun: String, borrow: bool },
}

/// The options of one `df(..)` attribute, in the order written.
#[derive(Debug, PartialEq, Eq)]
pub struct Attr(pub Vec<AttrOption>);

/// The meaning of an option: an [`AttrOption`] with its logical type as a [`DType`].
pub ghost enum OptionModel {
    Into(RustType),
    AsRef(RustType),
    Dtype(DType),
    Optional(bool),
    TryFrom { borrow: bool },
    SerializeWith { fun: String, borrow: bool },
    DeserializeWith { fun: String, borrow: bool },
}

impl View for AttrOption {
    type V = OptionModel;

    open spec fn view(&self) -> OptionModel {
        match *self {
            AttrOption::Into(t) => OptionModel::Into(t),
            AttrOption::AsRef(t) => OptionModel::AsRef(t),
            AttrOption::Dtype(d) => OptionModel::Dtype(d@),
            AttrOption::Optional(b) => OptionModel::Optional(b),
            AttrOption::TryFrom { borrow } => OptionModel::TryFrom { borrow },
            AttrOption::SerializeWith { fun, borrow } => OptionModel::SerializeWith { fun, borrow },
            AttrOption::DeserializeWith { fun, borrow } => OptionModel::DeserializeWith { fun, borrow },
        }
    }
}

/// The kind of value that the option `name` takes, if there is such an option.
pub open spec fn option_kind(name: Seq<char>) -> Option<ValueKind> {
    if name == "into"@ || name == "as_ref"@ {
        Some(ValueKind::Type)
    } else if name == "dtype"@ {
        Some(ValueKind::Expr)
    } else if name == "optional"@ {
        Some(ValueKind::Bool)
    } else if name == "serialize_with"@ || name == "deserialize_with"@
        || name == "serialize_with_borrow"@ || name == "deserialize_with_borrow"@ {
        Some(ValueKind::Path)
    } else if name == "try_from"@ || name == "try_from_borrow"@ {
        Some(ValueKind::Empty)
    } else {
        None
    }
}

pub open spec fn bad_option() -> Result<OptionModel, ConfigError> {
    Err(ConfigError::InvalidAttributeParameter)
}

/// The option that `name` and `value` make.
pub open spec fn parse_option(name: Seq<char>, value: OptionValue) -> Result<OptionModel, ConfigError> {
    if name == "into"@ {
        match value { OptionValue::Type(t) => Ok(OptionModel::Into(t)), _ => bad_option() }
    } else if name == "as_ref"@ {
        match value { OptionValue::Type(t) => Ok(OptionModel::AsRef(t)), _ => bad_option() }
    } else if name == "dtype"@ {
        match value {
            OptionValue::Expr(e) => match expr_dtype(e) {
                Ok(d) => Ok(OptionModel::Dtype(d)),
                Err(err) => Err(err),
            },
            _ => bad_option(),
        }
    } else if name == "optional"@ {
        match value { OptionValue::Bool(b) => Ok(OptionModel::Optional(b)), _ => bad_option() }
    } else if name == "serialize_with"@ {
        match value {
            OptionValue::Path(fun) => Ok(OptionModel::SerializeWith { fun, borrow: false }),
            _ => bad_option(),
        }
    } else if name == "deserialize_with"@ {
        match value {
            OptionValue::Path(fun) => Ok(OptionModel::DeserializeWith { fun, borrow: false }),
            _ => bad_option(),
        }
    } else if name == "serialize_with_borrow"@ {
        match value {
            OptionValue::Path(fun) => Ok(OptionModel::SerializeWith { fun, borrow: true }),
            _ => bad_option(),
        }
    } else if name == "deserialize_with_borrow"@ {
        match value {
            OptionValue::Path(fun) => Ok(OptionModel::DeserializeWith { fun, borrow: true }),
            _ => bad_option(),
        }
    } else if name == "try_from"@ {
        match value { OptionValue::Empty => Ok(OptionModel::TryFrom { borrow: false }), _ => bad_option() }
    } else if name == "try_from_borrow"@ {
        match value { OptionValue::Empty => Ok(OptionModel::TryFrom { borrow: true }), _ => bad_option() }
    } else {
        bad_option()
    }
}

/// The kind of value that the option `name` takes; `None` where no option has
/// that name.
pub fn value_kind(name: &str) -> (r: Option<ValueKind>)
    ensures
        r == option_kind(name@),
{
    if same_text(name, "into") || same_text(name, "as_ref") {
        Some(ValueKind::Type)
    } else if same_text(name, "dtype") {
        Some(ValueKind::Expr)
    } else if same_text(name, "optional") {
        Some(ValueKind::Bool)
    } else if same_text(name, "serialize_with") || same_text(name, "deserialize_with")
        || same_text(name, "serialize_with_borrow") || same_text(name, "deserialize_with_borrow") {
        Some(ValueKind::Path)
    } else if same_text(name, "try_from") || same_text(name, "try_from_borrow") {
        Some(ValueKind::Empty)
    } else {
        None
    }
}

impl AttrOption {
    /// Makes the option named `name` from the value written after it.
    pub fn parse(name: &str, value: OptionValue) -> (r: Result<AttrOption, ConfigError>)
        ensures
            match r {
                Ok(o) => parse_option(name@, value) == Ok::<OptionModel, ConfigError>(o@),
                Err(e) => parse_option(name@, value) == Err::<OptionModel, ConfigError>(e),
            },
    {
        if same_text(name, "into") {
            match value { OptionValue::Type(t) => Ok(AttrOption::Into(t)), _ => Err(ConfigError::InvalidAttributeParameter) }
        } else if same_text(name, "as_ref") {
            match value { OptionValue::Type(t) => Ok(AttrOption::AsRef(t)), _ => Err(ConfigError::InvalidAttributeParameter) }
        } else if same_text(name, "dtype") {
            match value {
                OptionValue::Expr(e) => match expr_to_dtype(&e) {
                    Ok(d) => Ok(AttrOption::Dtype(d)),
                    Err(err) => Err(err),
                },
                _ => Err(ConfigError::InvalidAttributeParameter),
            }
        } else if same_text(name, "optional") {
            match value { OptionValue::Bool(b) => Ok(AttrOption::Optional(b)), _ => Err(ConfigError::InvalidAttributeParameter) }
        } else if same_text(name, "serialize_with") {
            match value {
                OptionValue::Path(fun) => Ok(AttrOption::SerializeWith { fun, borrow: false }),
                _ => Err(ConfigError::InvalidAttributeParameter),
            }
        } else if same_text(name, "deserialize_with") {
            match value {
                OptionValue::Path(fun) => Ok(AttrOption::DeserializeWith { fun, borrow: false }),
                _ => Err(ConfigError::InvalidAttributeParameter),
            }
        } else if same_text(name, "serialize_with_borrow") {
            match value {
                OptionValue::Path(fun) => Ok(AttrOption::SerializeWith { fun, borrow: true }),
                _ => Err(ConfigError::InvalidAttributeParameter),
            }
        } else if same_text(name, "deserialize_with_borrow") {
            match value {
                OptionValue::Path(fun) => Ok(AttrOption::DeserializeWith { fun, borrow: true }),
                _ => Err(ConfigError::InvalidAttributeParameter),
            }
        } else if same_text(name, "try_from") {
            match value { OptionValue::Empty => Ok(AttrOption::TryFrom { borrow: false }), _ => Err(ConfigError::InvalidAttributeParameter) }
        } else if same_text(name, "try_from_borrow") {
            match value { OptionValue::Empty => Ok(AttrOption::TryFrom { borrow: true }), _ => Err(ConfigError::InvalidAttributeParameter) }
        } else {
            Err(ConfigError::InvalidAttributeParameter)
        }
    }
}

} // verus!
