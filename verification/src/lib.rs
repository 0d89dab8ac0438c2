//! Attendance client for the Hilan HR portal: page parsing, request building,
//! planning of bulk writes and rendering, stated and proved in Verus.

pub mod api;
pub mod attendance;
pub mod calendar;
pub mod cli;
pub mod client;
pub mod commit;
pub mod config;
pub mod date;
pub mod dom;
pub mod existing;
pub mod fields;
pub mod flows;
pub mod forms;
pub mod hr_core;
pub mod json;
pub mod laws;
pub mod months;
pub mod navigation;
pub mod ontology;
pub mod payslip;
pub mod provider;
pub mod reading;
pub mod records;
pub mod render;
pub mod reports;
pub mod requests;
pub mod responses;
pub mod salary;
pub mod submit;
pub mod text;
pub mod tools;
pub mod use_cases;
