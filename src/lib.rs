//! Estimates the installed size of a game library: joins the games an
//! account owns against a size database, sums and ranks the matches, and
//! renders the total for display.

pub mod aggregate;
pub mod catalog;
pub mod decimal;
pub mod display;
pub mod upstream;
