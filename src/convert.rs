use vstd::prelude::*;

use crate::document::{MetaFile, Options};
use crate::text::same_text;

verus! {

/// The markup dialects that the format converter reads.
#[derive(Debug, Clone, Copy, PartialEq, Eq, Structural)]
pub enum InputDialect {
    Markdown,
    Html,
    Org,
    Json,
    Latex,
}

/// The markup dialects that the format converter writes.
#[derive(Debug, Clone, Copy, PartialEq, Eq, Structural)]
pub enum OutputDialect {
    Html,
    Markdown,
    Man,
    Plain,
    Org,
    Json,
    Latex,
    Asciidoc,
    Pdf,
}

pub open spec fn input_dialect(s: Seq<char>) -> Option<InputDialect> {
    if s == "markdown"@ {
        Some(InputDialect::Markdown)
    } else if s == "html"@ {
        Some(InputDialect::Html)
    } else if s == "org"@ {
        Some(InputDialect::Org)
    } else if s == "json"@ {
        Some(InputDialect::Json)
    } else if s == "latex"@ {
        Some(InputDialect::Latex)
    } else {
        None
    }
}

pub open spec fn output_dialect(s: Seq<char>) -> Option<OutputDialect> {
    if s == "html"@ {
        Some(OutputDialect::Html)
    } else if s == "markdown"@ {
        Some(OutputDialect::Markdown)
    } else if s == "man"@ {
        Some(OutputDialect::Man)
    } else if s == "txt"@ {
        Some(OutputDialect::Plain)
    } else if s == "org"@ {
        Some(OutputDialect::Org)
    } else if s == "json"@ {
        Some(OutputDialect::Json)
    } else if s == "latex"@ {
        Some(OutputDialect::Latex)
    } else if s == "asciidoc"@ {
        Some(OutputDialect::Asciidoc)
    } else if s == "pdf"@ {
        Some(OutputDialect::Pdf)
    } else {
        None
    }
}

/// The file's own setting where it has one, else the build's.
pub open spec fn preferred(own: Seq<char>, fallback: Seq<char>) -> Seq<char> {
    if own.len() > 0 {
        own
    } else {
        fallback
    }
}

/// The dialects to convert a file's body between, where both are known.
pub open spec fn converter_pair(f: MetaFile, o: Options) -> Option<(InputDialect, OutputDialect)> {
    match (
        input_dialect(preferred(f.header.source@, o.input@)),
        output_dialect(preferred(f.header.filetype@, o.output@)),
    ) {
        (Some(i), Some(x)) => Some((i, x)),
        _ => None,
    }
}

/// Whether a resolved body `text` goes through the format converter, and
/// between which dialects.
pub open spec fn conversion(f: MetaFile, o: Options, text: Seq<char>) -> Option<
    (InputDialect, OutputDialect),
> {
    if o.no_pandoc || f.header.pandoc == Some(false) || text.len() == 0 {
        None
    } else {
        converter_pair(f, o)
    }
}

fn read_input(s: &str) -> (r: Option<InputDialect>)
    ensures
        r == input_dialect(s@),
{
    if same_text(s, "markdown") {
        Some(InputDialect::Markdown)
    } else if same_text(s, "html") {
        Some(InputDialect::Html)
    } else if same_text(s, "org") {
        Some(InputDialect::Org)
    } else if same_text(s, "json") {
        Some(InputDialect::Json)
    } else if same_text(s, "latex") {
        Some(InputDialect::Latex)
    } else {
        None
    }
}

fn read_output(s: &str) -> (r: Option<OutputDialect>)
    ensures
        r == output_dialect(s@),
{
    if same_text(s, "html") {
        Some(OutputDialect::Html)
    } else if same_text(s, "markdown") {
        Some(OutputDialect::Markdown)
    } else if same_text(s, "man") {
        Some(OutputDialect::Man)
    } else if same_text(s, "txt") {
        Some(OutputDialect::Plain)
    } else if same_text(s, "org") {
        Some(OutputDialect::Org)
    } else if same_text(s, "json") {
        Some(OutputDialect::Json)
    } else if same_text(s, "latex") {
        Some(OutputDialect::Latex)
    } else if same_text(s, "asciidoc") {
        Some(OutputDialect::Asciidoc)
    } else if same_text(s, "pdf") {
        Some(OutputDialect::Pdf)
    } else {
        None
    }
}

/// The dialects to convert `file`'s body between, where both are known.
pub fn pandoc_io(file: &MetaFile, opts: &Options) -> (r: Option<(InputDialect, OutputDialect)>)
    ensures
        r == converter_pair(*file, *opts),
{
    let source = if file.header.source.as_str().unicode_len() > 0 {
        file.header.source.as_str()
    } else {
        opts.input.as_str()
    };
    let filetype = if file.header.filetype.as_str().unicode_len() > 0 {
        file.header.filetype.as_str()
    } else {
        opts.output.as_str()
    };
    match (read_input(source), read_output(filetype)) {
        (Some(i), Some(x)) => Some((i, x)),
        _ => None,
    }
}

/// Whether the resolved body `text` of `file` goes through the format
/// converter, and between which dialects: not where the build or the file
/// turns conversion off, not for an empty body, and not for a dialect pair
/// the converter does not know.
pub fn converter_for(file: &MetaFile, opts: &Options, text: &str) -> (r: Option<
    (InputDialect, OutputDialect),
>)
    ensures
        r == conversion(*file, *opts, text@),
{
    if opts.no_pandoc || file.header.pandoc == Some(false) || text.unicode_len() == 0 {
        None
    } else {
        pandoc_io(file, opts)
    }
}

/// What the HTML minifier makes of a text.
pub uninterp spec fn minified(s: Seq<char>) -> Seq<char>;

/// Relies on minify_html::minify: its output is a function of its input and
/// of the fixed settings given here.
#[verifier::external_body]
fn minify_text(s: &str) -> (r: String)
    ensures
        r@ == minified(s@),
{
    let cfg = minify_html::Cfg {
        keep_closing_tags: true,
        keep_html_and_head_opening_tags: true,
        minify_css: true,
        minify_js: true,
        remove_bangs: true,
        remove_processing_instructions: true,
        ..minify_html::Cfg::new()
    };
    String::from_utf8_lossy(&minify_html::minify(s.as_bytes(), &cfg)).into_owned()
}

/// Whether the output of `f` is minified: where the build and the file both
/// ask for it.
pub open spec fn wants_minify(h: crate::header::Header, o: Options) -> bool {
    o.minify && h.minify
}

/// The output of `file` as it is written: minified where the build and the
/// file both ask for it.
pub fn finish_output(file: &MetaFile, opts: &Options, text: String) -> (r: String)
    ensures
        r@ == if wants_minify(file.header, *opts) {
            minified(text@)
        } else {
            text@
        },
{
    if opts.minify && file.header.minify {
        minify_text(text.as_str())
    } else {
        text
    }
}

} // verus!
