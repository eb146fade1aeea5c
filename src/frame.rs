//! The traits that record types implement to be stored as columns and read
//! back.
use vstd::prelude::*;

use crate::codec::{ConversionError, Series};
use crate::dtype::Field;

verus! {

/// A record type whose sequences can be stored as one column per field.
pub trait IntoDataFrame: Sized {
    /// Each column's name and logical type, in field order.
    fn schema() -> Vec<Field>;

    /// Stores the rows as one column per field, in field order.
    fn into_series(rows: Vec<Self>) -> Result<Vec<Series>, ConversionError>;
}

/// A record type that can be read back from columns.
pub trait FromDataFrame: Sized {
    /// Reads one record per row of the columns.
    fn from_df(df: &Vec<Series>) -> Result<Vec<Self>, ConversionError>;
}

} // verus!
