//! Verified core of an SVG rendering library: path data, CSS values, conditional
//! processing attributes, element references, gradients, filter primitives and the
//! bookkeeping of their results, surface normals for lighting, and the decisions of the
//! command-line converter.

pub mod error;
pub mod filter;
pub mod filter_func;
pub mod filters;
pub mod strings;
pub mod accept_language;
pub mod api;
pub mod cli;
pub mod cond;
pub mod css;
pub mod document;
pub mod drawing_ctx;
pub mod gradient;
pub mod image;
pub mod io;
pub mod iri;
pub mod length;
pub mod path_lexer;
pub mod paint_server;
pub mod path_parser;
pub mod property_defs;
pub mod rect;
pub mod surface_utils;
pub mod url_resolver;
