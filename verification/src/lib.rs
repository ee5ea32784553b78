//! Verified core of the SevenMark editor and HTML tooling.
//!
//! Editor side: `completion`, `hover`, `definition`, `diagnostics`,
//! `folding`, `symbols`, `server_state` (message routing and open
//! documents) and `language_server` (the native server's completion and
//! semantic tokens), over the document tree of `ast`.
//!
//! Renderer side: `render_context` (footnotes, soft breaks, dark styles),
//! `footnote`, `style`, `sanitize` (the CSS policy's decisions),
//! `parameters`, `media`, `embed`, `table` and `list`.
//!
//! Shared: `text`, `fmt` and `str_map`.

pub mod ast;
pub mod completion;
pub mod definition;
pub mod diagnostics;
pub mod document;
pub mod embed;
pub mod fmt;
pub mod folding;
pub mod footnote;
pub mod hover;
pub mod language_server;
pub mod list;
pub mod media;
pub mod parameters;
pub mod positions;
pub mod render_context;
pub mod rendering;
pub mod replies;
pub mod rpc;
pub mod sanitize;
pub mod server_state;
pub mod str_map;
pub mod style;
pub mod symbols;
pub mod table;
pub mod text;
pub mod toc_label;
pub mod walk;
