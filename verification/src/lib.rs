//! Verified core of a set of portfolio-statistics exercises: the layout of
//! the Student-t parameter vector, the shape of sample tables and symmetric
//! matrices, the starting simplex of the fit, the random choice of columns,
//! the names of the volatility columns and the page that shows the plots.
//!
//! The numerical work on floating-point data lives with the program that
//! uses this library.
pub mod column_choice;
pub mod plot_page;
pub mod simplex;
pub mod student_t_params;
pub mod symmetric;
pub mod table;
pub mod text;
pub mod volatility_columns;
