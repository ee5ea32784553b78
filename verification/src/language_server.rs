//! The native language server's own completion, diagnostics text and
//! semantic tokens.

pub mod completion;
pub mod diagnostics;
pub mod semantic_tokens;
