pub mod text;
pub mod estree;
pub mod ast;
pub mod json;
pub mod js;
pub mod walk;
pub mod diagnostics;
pub mod scan;
pub mod parse_js;
pub mod parse;
pub mod css_parser;
pub mod component;
pub mod names;
pub mod template;
pub mod scripts;
pub mod bindings;
pub mod snippets;
pub mod directives;
pub mod deps;
pub mod reactive;
pub mod consts;
pub mod slots;
pub mod content;
pub mod structure;
pub mod placement;
pub mod preprocess;
pub mod runes;
pub mod constant_assignment;
pub mod css_checks;
pub mod validate;
