use vstd::prelude::*;

use crate::error::MetaError;
use crate::text::{owned, same_text};

verus! {

/// The per-file settings that a header block can change.
#[derive(Debug, Clone)]
pub struct Header {
    pub blank: bool,
    pub panic_default: bool,
    pub panic_undefined: bool,
    pub equal_arrays: bool,
    pub filetype: String,
    pub source: String,
    pub pandoc: Option<bool>,
    pub ignore: bool,
    pub copy_only: bool,
    pub minify: bool,
}

/// The settings of a file without a header.
pub open spec fn default_header(h: Header) -> bool {
    &&& !h.blank
    &&& !h.panic_default
    &&& !h.panic_undefined
    &&& !h.equal_arrays
    &&& h.filetype@ == "html"@
    &&& h.source@ == "markdown"@
    &&& h.pandoc is None
    &&& !h.ignore
    &&& !h.copy_only
    &&& h.minify
}

/// The texts of a list of key/value pairs.
pub open spec fn pairs_view(v: Seq<(String, String)>) -> Seq<(Seq<char>, Seq<char>)> {
    v.map_values(|p: (String, String)| (p.0@, p.1@))
}

/// The value that the last pair for `key` gives, if any does.
pub open spec fn setting(pairs: Seq<(Seq<char>, Seq<char>)>, key: Seq<char>) -> Option<Seq<char>>
    decreases pairs.len(),
{
    if pairs.len() == 0 {
        None
    } else if pairs.last().0 == key {
        Some(pairs.last().1)
    } else {
        setting(pairs.drop_last(), key)
    }
}

pub open spec fn is_header_option(k: Seq<char>) -> bool {
    ||| k == "blank"@
    ||| k == "panic_default"@
    ||| k == "panic_undefined"@
    ||| k == "equal_arrays"@
    ||| k == "pandoc"@
    ||| k == "filetype"@
    ||| k == "source"@
    ||| k == "ignore"@
    ||| k == "copy_only"@
    ||| k == "minify"@
}

/// A flag: set where the last value given for it is `true`.
pub open spec fn flag(pairs: Seq<(Seq<char>, Seq<char>)>, key: Seq<char>, default: bool) -> bool {
    match setting(pairs, key) {
        Some(v) => v == "true"@,
        None => default,
    }
}

pub open spec fn text_setting(
    pairs: Seq<(Seq<char>, Seq<char>)>,
    key: Seq<char>,
    default: Seq<char>,
) -> Seq<char> {
    match setting(pairs, key) {
        Some(v) => v,
        None => default,
    }
}

/// The header that a list of settings describes.
pub open spec fn header_from(h: Header, pairs: Seq<(Seq<char>, Seq<char>)>) -> bool {
    &&& h.blank == flag(pairs, "blank"@, false)
    &&& h.panic_default == flag(pairs, "panic_default"@, false)
    &&& h.panic_undefined == flag(pairs, "panic_undefined"@, false)
    &&& h.equal_arrays == flag(pairs, "equal_arrays"@, false)
    &&& h.filetype@ == text_setting(pairs, "filetype"@, "html"@)
    &&& h.source@ == text_setting(pairs, "source"@, "markdown"@)
    &&& h.pandoc == (match setting(pairs, "pandoc"@) {
        Some(v) => Some(v == "true"@),
        None => None,
    })
    &&& h.ignore == flag(pairs, "ignore"@, false)
    &&& h.copy_only == flag(pairs, "copy_only"@, false)
    &&& h.minify == flag(pairs, "minify"@, true)
}

fn find_setting<'a>(pairs: &'a Vec<(String, String)>, key: &str) -> (r: Option<&'a String>)
    ensures
        r matches Some(v) ==> setting(pairs_view(pairs@), key@) == Some(v@),
        r is None ==> setting(pairs_view(pairs@), key@) is None,
{
    let ghost ps = pairs_view(pairs@);
    let mut i: usize = pairs.len();
    assert(ps.take(i as int) == ps);
    while i > 0
        invariant
            i <= pairs.len(),
            ps == pairs_view(pairs@),
            setting(ps, key@) == setting(ps.take(i as int), key@),
        decreases i,
    {
        assert(ps.take(i as int).drop_last() == ps.take(i - 1));
        if same_text(pairs[i - 1].0.as_str(), key) {
            return Some(&pairs[i - 1].1);
        }
        i = i - 1;
    }
    None
}

fn read_flag(pairs: &Vec<(String, String)>, key: &str, default: bool) -> (r: bool)
    ensures
        r == flag(pairs_view(pairs@), key@, default),
{
    match find_setting(pairs, key) {
        Some(v) => same_text(v.as_str(), "true"),
        None => default,
    }
}

fn read_text(pairs: &Vec<(String, String)>, key: &str, default: &str) -> (r: String)
    ensures
        r@ == text_setting(pairs_view(pairs@), key@, default@),
{
    match find_setting(pairs, key) {
        Some(v) => v.clone(),
        None => owned(default),
    }
}

fn known_option(k: &str) -> (r: bool)
    ensures
        r == is_header_option(k@),
{
    same_text(k, "blank") || same_text(k, "panic_default") || same_text(k, "panic_undefined")
        || same_text(k, "equal_arrays") || same_text(k, "pandoc") || same_text(k, "filetype")
        || same_text(k, "source") || same_text(k, "ignore") || same_text(k, "copy_only")
        || same_text(k, "minify")
}

impl Header {
    pub fn new() -> (r: Header)
        ensures
            default_header(r),
    {
        Header {
            blank: false,
            panic_default: false,
            panic_undefined: false,
            equal_arrays: false,
            filetype: owned("html"),
            source: owned("markdown"),
            pandoc: None,
            ignore: false,
            copy_only: false,
            minify: true,
        }
    }

    /// A copy of this header.
    pub fn duplicate(&self) -> (r: Header)
        ensures
            r == *self,
    {
        Header {
            blank: self.blank,
            panic_default: self.panic_default,
            panic_undefined: self.panic_undefined,
            equal_arrays: self.equal_arrays,
            filetype: self.filetype.clone(),
            source: self.source.clone(),
            pandoc: self.pandoc,
            ignore: self.ignore,
            copy_only: self.copy_only,
            minify: self.minify,
        }
    }

    /// The header that the settings of a header block describe; a key that
    /// names no option is an error.
    pub fn from_settings(pairs: &Vec<(String, String)>) -> (r: Result<Header, MetaError>)
        ensures
            r is Err <==> exists|i: int|
                0 <= i < pairs@.len() && !is_header_option(#[trigger] pairs@[i].0@),
            r matches Err(e) ==> e.kind() == crate::error::ErrorKind::Header,
            r matches Ok(h) ==> header_from(h, pairs_view(pairs@)),
    {
        let mut i: usize = 0;
        while i < pairs.len()
            invariant
                i <= pairs.len(),
                forall|j: int| 0 <= j < i ==> is_header_option(#[trigger] pairs@[j].0@),
            decreases pairs.len() - i,
        {
            if !known_option(pairs[i].0.as_str()) {
                return Err(MetaError::Header { opt: pairs[i].0.clone() });
            }
            i = i + 1;
        }
        let pandoc = match find_setting(pairs, "pandoc") {
            Some(v) => Some(same_text(v.as_str(), "true")),
            None => None,
        };
        Ok(
            Header {
                blank: read_flag(pairs, "blank", false),
                panic_default: read_flag(pairs, "panic_default", false),
                panic_undefined: read_flag(pairs, "panic_undefined", false),
                equal_arrays: read_flag(pairs, "equal_arrays", false),
                filetype: read_text(pairs, "filetype", "html"),
                source: read_text(pairs, "source", "markdown"),
                pandoc,
                ignore: read_flag(pairs, "ignore", false),
                copy_only: read_flag(pairs, "copy_only", false),
                minify: read_flag(pairs, "minify", true),
            },
        )
    }
}

} // verus!
