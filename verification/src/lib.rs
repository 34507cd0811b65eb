//! An XPath-style expression engine: values with coercion rules, node sets,
//! token disambiguation, and a recursive expression evaluator, together with a
//! small recursive-descent parser for self-closing XML documents.

pub mod context;
pub mod disambiguator;
pub mod dom;
pub mod expression;
pub mod num;
pub mod parser;
pub mod token;
pub mod value;
