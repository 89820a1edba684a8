//! Sorting the lists of an Arrow list column, as the SQL function `array_sort` does.
//!
//! * [`value`] is the mathematical model: what arrays hold, and what it means for values to be
//!   sorted.
//! * [`arrays`] has the Arrow arrays, and the Arrow functions that the library calls.
//! * [`options`] and [`arguments`] read the order in which to sort.
//! * [`rows`] makes list columns of rows; [`mod@sort`] sorts them; [`checked`] does so for
//!   arguments of which nothing is known.
//! * [`laws`] states what holds of the function as a whole. [`order_laws`], [`option_laws`],
//!   [`limit_laws`], [`row_laws`], [`declaration_laws`] and [`batch_laws`] state what the public
//!   functions give, and which arguments they take, in terms of arguments and results alone.
//! * [`udf`] is the function as a query engine registers it.
//! * [`unnest`] has the data of a benchmark that unnests list columns.

pub mod arguments;
pub mod arrays;
pub mod batch_laws;
pub mod checked;
pub mod declaration_laws;
pub mod error;
pub mod laws;
pub mod limit_laws;
pub mod option_laws;
pub mod options;
pub mod order_laws;
pub mod row_laws;
pub mod rows;
pub mod sort;
pub mod text;
pub mod udf;
pub mod unnest;
pub mod value;
