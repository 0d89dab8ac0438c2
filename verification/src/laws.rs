//! What the operations of the library are for: laws over what goes in and what
//! comes out.

pub mod answers;
pub mod asking;
pub mod calendar;
pub mod existing;
pub mod filling;
pub mod fixing;
pub mod flows;
pub mod keeping;
pub mod kinds;
pub mod months;
pub mod overview;
pub mod pages;
pub mod posting;
pub mod replies;
pub mod salaries;
pub mod sending;
pub mod shown;
pub mod texts;
pub mod trees;
pub mod views;
pub mod writing;
