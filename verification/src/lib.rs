//! Dice notation: reading tokens such as `3d6`, throwing the dice they
//! describe, and reducing the rolls with an aggregate function.
//!
//! A token is read into a [`Dice`], which always has a die to throw and two
//! faces to show. Throwing draws one number for each die from a
//! [`UniformSource`]: the random generator of the thread, or a script. An
//! [`Aggregate`] makes a [`Summary`] of the rolls, and [`run`] does all of
//! this for a list of tokens, throwing nothing unless every token reads.

pub mod aggregate;
pub mod batch;
pub mod decimal;
pub mod dice;
pub mod error;
pub mod notation;
pub mod report;
pub mod source;
pub mod text;

pub use aggregate::{aggregate, Aggregate, Summary};
pub use batch::{parse_all, run, Report};
pub use dice::Dice;
pub use error::{AggregateError, MalformedReason, ParseAggregateError, ParseDieError};
pub use source::{ScriptedSource, ThreadSource, UniformSource};
