//! Terminal input decoding and output attribute tracking.
//!
//! The key decoder turns raw terminal bytes into keypresses, waiting briefly
//! for the continuation of ambiguous escape sequences; the writer turns
//! screen-control requests into a stream of capability requests and text,
//! emitting attribute changes only when they change something.
pub mod caps;
pub mod catalog;
pub mod keys;
pub mod reader;
pub mod table;
pub mod term;
pub mod writer;

pub use caps::{key_f, Cap, Color};
pub use catalog::{build_escapes_trie, KeySequences};
pub use keys::Keypress;
pub use reader::{ByteRead, ReadStep, TermReader};
pub use table::PrefixTable;
pub use term::Term;
pub use writer::{AttrState, Out, TermWriter};
