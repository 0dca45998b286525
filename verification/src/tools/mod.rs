//! Built-in tools: their definitions and the decisions they make; the
//! processes, files and network requests they need are driven by the
//! application around the library.

pub mod browser_act;
pub mod browser_auth;
pub mod browser_common;
pub mod browser_navigate;
pub mod browser_read;
pub mod browser_snapshot;
pub mod browser_wait;
pub mod generate_pdf;
pub mod read_file;
pub mod read_spreadsheet;
pub mod web_search;
