//! Building blocks for reading service configurations: a lenient boolean,
//! range-checked integers, environment references in strings, regular
//! expressions with their options, template strings, values read from
//! files in several formats, a structural update of reflected values, the
//! decisions of a hot-reloadable service handle, the naming rules of
//! derived Lua bindings, and the request/response vocabulary of the
//! OpenRouter API.

pub mod boolean;
pub mod text;
pub mod reflect;
pub mod openrouter;
pub mod regexp;
pub mod compiled;
pub mod filters;
pub mod env;
pub mod template;
pub mod reloadable;
pub mod lua_derive;
pub mod range_ints;
pub mod middleware;
