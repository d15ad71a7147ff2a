//! Request-item grammar and request assembly for a command-line HTTP client.
//!
//! `cli` turns an argument vector into a method, a URL, headers, query
//! parameters and data items; `body` folds the data items into the request
//! body. `item`, `token`, `options`, `method` and `url` hold the rules for
//! single tokens. `headers` and `json` state what is taken on trust from the
//! HTTP and JSON libraries.

pub mod body;
pub mod cli;
pub mod error;
pub mod headers;
pub mod item;
pub mod json;
pub mod method;
pub mod options;
pub mod text;
pub mod token;
pub mod url;

pub use crate::body::{build, build_form, build_form_strict, build_json, Body};
pub use crate::cli::Args;
pub use crate::error::{BuildError, ParseError, ParseErrorKind};
pub use crate::item::{parse_var, RequestItemType};
pub use crate::method::Method;
pub use crate::options::{Command, ContentType};
pub use crate::token::{classify, TokenKind};
pub use crate::url::normalize;
