//! Markdown to bracketed rich-text markup: the parser's event stream is turned
//! into `[b]`, `[url=...]`, `[table=N]` and similar tags.

pub mod events;
pub mod table;
pub mod convert;
pub mod host;
pub mod lemmas;
pub mod table_rendering;
