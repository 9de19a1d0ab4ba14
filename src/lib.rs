//! A template-driven content build tool: a file format with a header,
//! scoped definitions and a body of references, a resolver that expands
//! variables, arrays and patterns against layered scopes, and the
//! inheritance of configuration down a source tree.
pub mod convert;
pub mod dir;
pub mod document;
pub mod error;
pub mod header;
pub mod laws;
pub mod parser;
pub mod resolve;
pub mod scope;
pub mod text;

pub use convert::{converter_for, finish_output, pandoc_io, InputDialect, OutputDialect};
pub use dir::{classify_entry, decide, settle, Decision, DirNode, EntryKind, SiteTree};
pub use document::{MetaFile, Options, Opts, RootDirs, Src};
pub use error::{check_ignore, ErrorKind, MetaError};
pub use header::Header;
pub use parser::{parse_source, parse_string, MetaParser};
pub use resolve::{
    build_metafile, expand_arrays, get_array, get_array_size, get_pattern, get_variable,
    metafile_to_string, render_with_base, source_stage, Chunk, PatternStore, Piece, Stage,
    StoredFile,
};
pub use scope::{ArrMap, Scope, VarMap};
