//! Non-conformance reports with suggested defect codes, and the client for the
//! API that suggests them.

pub mod catalog;
pub mod double;
pub mod form;
pub mod headers;
pub mod json;
pub mod ncr;
pub mod text;
pub mod text_map;
pub mod time;
pub mod typesafe;
