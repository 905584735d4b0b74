//! Laws of the operations themselves: what their results are, told by what goes into
//! them and comes out of them alone.
pub mod dates;
pub mod models;
pub mod queries;
pub mod sending;
pub mod texts;
pub mod updating;
