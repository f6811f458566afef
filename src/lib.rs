//! Request-side logic of a tabular inference service: reading a CSV text into a
//! table of numeric tokens, checking its shape against the known feature count,
//! and turning the outcome of the prediction into the result handed back.
pub mod model;
pub mod number;
pub mod outcome;
pub mod table;
pub mod text;

pub use model::decode_model;
pub use number::is_float_token;
pub use outcome::{
    complete, decimal_text, join_values, validate_request, PredictionFailed, PredictionResult,
};
pub use table::{parse_table, FeatureTable, TableError};
