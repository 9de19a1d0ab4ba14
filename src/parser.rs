use vstd::prelude::*;

use crate::document::{segments_view, MetaFile, Segment, Src};
use crate::error::{ErrorKind, MetaError};
use crate::header::{is_header_option, pairs_view, Header};
use crate::scope::{arr_entries, map_of, strings_view, var_entries, Scope, ScopeName};
use crate::text::{owned, to_chars};

verus! {

pub open spec fn is_ws(c: char) -> bool {
    c == ' ' || c == '\t' || c == '\n' || c == '\r'
}

pub open spec fn is_key_char(c: char) -> bool {
    ('a' <= c && c <= 'z') || ('A' <= c && c <= 'Z') || ('0' <= c && c <= '9') || c == '_'
        || c == '.' || c == '-'
}

/// The first index at or after `i` that holds no white space.
pub open spec fn skip_ws(s: Seq<char>, i: int) -> int
    decreases s.len() - i,
{
    if i < s.len() && is_ws(s[i]) {
        skip_ws(s, i + 1)
    } else {
        i
    }
}

/// The first index at or after `i` that holds no key character.
pub open spec fn key_end(s: Seq<char>, i: int) -> int
    decreases s.len() - i,
{
    if i < s.len() && is_key_char(s[i]) {
        key_end(s, i + 1)
    } else {
        i
    }
}

/// Whether `lit` stands in `s` at index `i`.
pub open spec fn text_at(s: Seq<char>, i: int, lit: Seq<char>) -> bool {
    0 <= i && i + lit.len() <= s.len() && s.subrange(i, i + lit.len()) == lit
}

/// Whether `c` opens a reference or a definition block when `{` follows it.
pub open spec fn is_sigil(c: char) -> bool {
    c == '$' || c == '@' || c == '&'
}

/// Whether a reference, a definition block or a comment opens at `i`.
pub open spec fn opener_at(s: Seq<char>, i: int) -> bool {
    0 <= i && i + 1 < s.len() && s[i + 1] == '{' && (is_sigil(s[i]) || s[i] == '-')
}

/// The end of the literal text that runs from `i`.
pub open spec fn literal_end(s: Seq<char>, i: int) -> int
    decreases s.len() - i,
{
    if i < s.len() && !opener_at(s, i) {
        literal_end(s, i + 1)
    } else {
        i
    }
}

/// A quoted string at `i`: its text between the quotes, and the index after it.
pub open spec fn quoted_at(s: Seq<char>, i: int) -> Option<(Seq<char>, int)> {
    if 0 <= i < s.len() && (s[i] == '"' || s[i] == '\'') {
        let j = crate::text::next_char(s, i + 1, s[i]);
        if i < j < s.len() {
            Some((s.subrange(i + 1, j), j + 1))
        } else {
            None
        }
    } else {
        None
    }
}

/// The value of a definition.
pub enum DefValue {
    Text(Seq<char>),
    List(Seq<Seq<char>>),
}

/// What a block defines: a header, variables, arrays or patterns.
#[derive(Debug, Clone, Copy, PartialEq, Eq, Structural)]
pub enum BlockKind {
    Header,
    Variables,
    Arrays,
    Patterns,
}

pub open spec fn block_kind(c: char) -> BlockKind {
    if c == '$' {
        BlockKind::Variables
    } else if c == '@' {
        BlockKind::Arrays
    } else if c == '&' {
        BlockKind::Patterns
    } else {
        BlockKind::Header
    }
}

/// The items of an array value from `i` on, after those in `acc`; and the
/// index after the closing bracket.
pub open spec fn list_items(s: Seq<char>, i: int, acc: Seq<Seq<char>>) -> Option<(Seq<Seq<char>>, int)>
    decreases s.len() - i,
{
    let j = skip_ws(s, i);
    if j < s.len() && s[j] == ']' {
        Some((acc, j + 1))
    } else {
        match quoted_at(s, j) {
            None => None,
            Some((v, k)) => {
                let k2 = skip_ws(s, k);
                if k2 < s.len() && s[k2] == ',' && i < k2 + 1 {
                    list_items(s, k2 + 1, acc.push(v))
                } else if k2 < s.len() && s[k2] == ']' {
                    Some((acc.push(v), k2 + 1))
                } else {
                    None
                }
            },
        }
    }
}

/// The value of a definition of the given kind at `i`, and the index after it.
pub open spec fn value_at(s: Seq<char>, i: int, kind: BlockKind) -> Option<(DefValue, int)> {
    match kind {
        BlockKind::Arrays => if 0 <= i < s.len() && s[i] == '[' {
            match list_items(s, i + 1, Seq::empty()) {
                Some((v, k)) => Some((DefValue::List(v), k)),
                None => None,
            }
        } else {
            None
        },
        BlockKind::Header => if text_at(s, i, "true"@) {
            Some((DefValue::Text("true"@), i + 4))
        } else if text_at(s, i, "false"@) {
            Some((DefValue::Text("false"@), i + 5))
        } else if text_at(s, i, "BLANK"@) {
            Some((DefValue::Text("BLANK"@), i + 5))
        } else {
            match quoted_at(s, i) {
                Some((v, k)) => Some((DefValue::Text(v), k)),
                None => None,
            }
        },
        _ => if text_at(s, i, "BLANK"@) {
            Some((DefValue::Text("BLANK"@), i + 5))
        } else if text_at(s, i, "DEFAULT"@) {
            Some((DefValue::Text("DEFAULT"@), i + 7))
        } else {
            match quoted_at(s, i) {
                Some((v, k)) => Some((DefValue::Text(v), k)),
                None => None,
            }
        },
    }
}

/// One definition at `i` (after white space): whether it is local, its key,
/// its value, and the index after it. Only definition blocks mark keys local.
pub open spec fn assign_at(s: Seq<char>, i: int, kind: BlockKind) -> Option<(bool, Seq<char>, DefValue, int)> {
    let local = !(kind is Header) && i < s.len() && s[i] == '*';
    let k0 = if local {
        skip_ws(s, i + 1)
    } else {
        i
    };
    let k1 = key_end(s, k0);
    let e = skip_ws(s, k1);
    if k0 < k1 && e < s.len() && s[e] == '=' {
        match value_at(s, skip_ws(s, e + 1), kind) {
            Some((v, n)) => Some((local, s.subrange(k0, k1), v, n)),
            None => None,
        }
    } else {
        None
    }
}

/// The definitions of a block from `i` on, after those in `acc`; and the
/// index after the closing brace.
pub open spec fn assigns(
    s: Seq<char>,
    i: int,
    kind: BlockKind,
    acc: Seq<(bool, Seq<char>, DefValue)>,
) -> Option<(Seq<(bool, Seq<char>, DefValue)>, int)>
    decreases s.len() - i,
{
    let j = skip_ws(s, i);
    if j < s.len() && s[j] == '}' {
        Some((acc, j + 1))
    } else {
        match assign_at(s, j, kind) {
            None => None,
            Some((l, k, v, n)) => if i < n <= s.len() {
                assigns(s, n, kind, acc.push((l, k, v)))
            } else {
                None
            },
        }
    }
}

/// The body from `i` on, after the segments in `acc`: literal text,
/// references `${key}`, `@{key}` and `&{key}`, and comments `-{...}`, which
/// are dropped.
pub open spec fn body_from(s: Seq<char>, i: int, acc: Seq<Segment>) -> Option<Seq<Segment>>
    decreases s.len() - i,
{
    if i < 0 || i >= s.len() {
        Some(acc)
    } else if opener_at(s, i) && s[i] == '-' {
        let j = crate::text::next_char(s, i + 2, '}');
        if i < j < s.len() {
            body_from(s, j + 1, acc)
        } else {
            None
        }
    } else if opener_at(s, i) {
        let k = key_end(s, i + 2);
        if i + 2 < k < s.len() && s[k] == '}' {
            let key = s.subrange(i + 2, k);
            let seg = if s[i] == '$' {
                Segment::Var(key)
            } else if s[i] == '@' {
                Segment::Arr(key)
            } else {
                Segment::Pat(key)
            };
            body_from(s, k + 1, acc.push(seg))
        } else {
            None
        }
    } else {
        let j = literal_end(s, i);
        if i < j <= s.len() {
            body_from(s, j, acc.push(Segment::Text(s.subrange(i, j))))
        } else {
            None
        }
    }
}

/// The parts of a file, in the order they were written.
pub struct FileParts {
    pub header: Seq<(Seq<char>, Seq<char>)>,
    pub variables: Seq<(ScopeName, Seq<char>)>,
    pub arrays: Seq<(ScopeName, Seq<Seq<char>>)>,
    pub patterns: Seq<(ScopeName, Seq<char>)>,
    pub body: Seq<Segment>,
}

pub open spec fn scoped(local: bool, key: Seq<char>) -> ScopeName {
    if local {
        ScopeName::Local(key)
    } else {
        ScopeName::Global(key)
    }
}

pub open spec fn def_text(v: DefValue) -> Seq<char> {
    match v {
        DefValue::Text(t) => t,
        DefValue::List(_) => Seq::empty(),
    }
}

pub open spec fn def_list(v: DefValue) -> Seq<Seq<char>> {
    match v {
        DefValue::List(l) => l,
        DefValue::Text(_) => Seq::empty(),
    }
}

pub open spec fn def_pairs(ds: Seq<(bool, Seq<char>, DefValue)>) -> Seq<(Seq<char>, Seq<char>)>
    decreases ds.len(),
{
    if ds.len() == 0 {
        Seq::empty()
    } else {
        def_pairs(ds.drop_last()).push((ds.last().1, def_text(ds.last().2)))
    }
}

pub open spec fn text_defs(ds: Seq<(bool, Seq<char>, DefValue)>) -> Seq<(ScopeName, Seq<char>)>
    decreases ds.len(),
{
    if ds.len() == 0 {
        Seq::empty()
    } else {
        text_defs(ds.drop_last()).push((scoped(ds.last().0, ds.last().1), def_text(ds.last().2)))
    }
}

pub open spec fn list_defs(ds: Seq<(bool, Seq<char>, DefValue)>) -> Seq<(ScopeName, Seq<Seq<char>>)>
    decreases ds.len(),
{
    if ds.len() == 0 {
        Seq::empty()
    } else {
        list_defs(ds.drop_last()).push((scoped(ds.last().0, ds.last().1), def_list(ds.last().2)))
    }
}

/// `p` with the definitions `ds` of a block of the given kind added.
pub open spec fn add_defs(p: FileParts, kind: BlockKind, ds: Seq<(bool, Seq<char>, DefValue)>) -> FileParts {
    match kind {
        BlockKind::Header => FileParts { header: p.header + def_pairs(ds), ..p },
        BlockKind::Variables => FileParts { variables: p.variables + text_defs(ds), ..p },
        BlockKind::Arrays => FileParts { arrays: p.arrays + list_defs(ds), ..p },
        BlockKind::Patterns => FileParts { patterns: p.patterns + text_defs(ds), ..p },
    }
}

/// The definition blocks from `i` on, then the body; a block that does not
/// parse is read as the start of the body.
pub open spec fn blocks_from(s: Seq<char>, i: int, p: FileParts) -> Option<FileParts>
    decreases s.len() - i,
{
    let j = skip_ws(s, i);
    if opener_at(s, j) && is_sigil(s[j]) {
        match assigns(s, j + 2, block_kind(s[j]), Seq::empty()) {
            Some((ds, n)) => if i < n <= s.len() {
                blocks_from(s, n, add_defs(p, block_kind(s[j]), ds))
            } else {
                None
            },
            None => match body_from(s, j, Seq::empty()) {
                Some(b) => Some(FileParts { body: b, ..p }),
                None => None,
            },
        }
    } else {
        match body_from(s, j, Seq::empty()) {
            Some(b) => Some(FileParts { body: b, ..p }),
            None => None,
        }
    }
}

pub open spec fn no_parts() -> FileParts {
    FileParts {
        header: Seq::empty(),
        variables: Seq::empty(),
        arrays: Seq::empty(),
        patterns: Seq::empty(),
        body: Seq::empty(),
    }
}

/// The parts of a file: an optional header block `#{...}` first, then
/// definition blocks, then the body.
pub open spec fn parse_parts(s: Seq<char>) -> Option<FileParts> {
    let j = skip_ws(s, 0);
    if text_at(s, j, "#{"@) {
        match assigns(s, j + 2, BlockKind::Header, Seq::empty()) {
            Some((ds, n)) => blocks_from(s, n, add_defs(no_parts(), BlockKind::Header, ds)),
            None => None,
        }
    } else {
        blocks_from(s, 0, no_parts())
    }
}


/// The value of a definition as parsed.
pub enum Value {
    Text(String),
    List(Vec<String>),
}

impl View for Value {
    type V = DefValue;

    open spec fn view(&self) -> DefValue {
        match self {
            Value::Text(t) => DefValue::Text(t@),
            Value::List(l) => DefValue::List(strings_view(l@)),
        }
    }
}

pub open spec fn defs_view(v: Seq<(bool, String, Value)>) -> Seq<(bool, Seq<char>, DefValue)> {
    v.map_values(|d: (bool, String, Value)| (d.0, d.1@, d.2@))
}

fn skip_spaces(cs: &Vec<char>, i: usize) -> (r: usize)
    requires
        i <= cs.len(),
    ensures
        r == skip_ws(cs@, i as int),
        i <= r <= cs.len(),
{
    let mut j = i;
    while j < cs.len() && (cs[j] == ' ' || cs[j] == '\t' || cs[j] == '\n' || cs[j] == '\r')
        invariant
            i <= j <= cs.len(),
            skip_ws(cs@, i as int) == skip_ws(cs@, j as int),
        decreases cs.len() - j,
    {
        j = j + 1;
    }
    j
}

fn key_char(c: char) -> (r: bool)
    ensures
        r == is_key_char(c),
{
    ('a' <= c && c <= 'z') || ('A' <= c && c <= 'Z') || ('0' <= c && c <= '9') || c == '_'
        || c == '.' || c == '-'
}

fn key_stop(cs: &Vec<char>, i: usize) -> (r: usize)
    requires
        i <= cs.len(),
    ensures
        r == key_end(cs@, i as int),
        i <= r <= cs.len(),
{
    let mut j = i;
    while j < cs.len() && key_char(cs[j])
        invariant
            i <= j <= cs.len(),
            key_end(cs@, i as int) == key_end(cs@, j as int),
        decreases cs.len() - j,
    {
        j = j + 1;
    }
    j
}

fn is_opener(cs: &Vec<char>, i: usize) -> (r: bool)
    ensures
        r == opener_at(cs@, i as int),
{
    i < cs.len() && cs.len() - i > 1 && cs[i + 1] == '{' && (cs[i] == '$' || cs[i] == '@'
        || cs[i] == '&' || cs[i] == '-')
}

fn literal_stop(cs: &Vec<char>, i: usize) -> (r: usize)
    requires
        i <= cs.len(),
    ensures
        r == literal_end(cs@, i as int),
        i <= r <= cs.len(),
{
    let mut j = i;
    while j < cs.len() && !is_opener(cs, j)
        invariant
            i <= j <= cs.len(),
            literal_end(cs@, i as int) == literal_end(cs@, j as int),
        decreases cs.len() - j,
    {
        j = j + 1;
    }
    j
}

fn has_text(cs: &Vec<char>, i: usize, lit: &str) -> (r: bool)
    requires
        i <= cs.len(),
    ensures
        r == text_at(cs@, i as int, lit@),
{
    let l = to_chars(lit);
    if l.len() > cs.len() - i {
        return false;
    }
    let mut k: usize = 0;
    while k < l.len()
        invariant
            l@ == lit@,
            i + l.len() <= cs.len(),
            k <= l.len(),
            forall|m: int| 0 <= m < k ==> cs@[i + m] == l@[m],
        decreases l.len() - k,
    {
        if cs[i + k] != l[k] {
            assert(cs@.subrange(i as int, i + l.len())[k as int] != l@[k as int]);
            return false;
        }
        k = k + 1;
    }
    assert(cs@.subrange(i as int, i + l.len()) =~= l@);
    true
}

fn quoted(cs: &Vec<char>, s: &str, i: usize) -> (r: Option<(String, usize)>)
    requires
        cs@ == s@,
        i <= cs.len(),
    ensures
        r matches Some((v, k)) ==> quoted_at(cs@, i as int) == Some((v@, k as int)) && k
            <= cs.len(),
        r is None ==> quoted_at(cs@, i as int) is None,
{
    if i < cs.len() && (cs[i] == '"' || cs[i] == '\'') {
        let j = crate::text::find_char(cs, i + 1, cs[i]);
        proof {
            crate::text::lemma_next_char(cs@, i + 1, cs@[i as int]);
        }
        if j < cs.len() {
            Some((owned(s.substring_char(i + 1, j)), j + 1))
        } else {
            None
        }
    } else {
        None
    }
}

fn list(cs: &Vec<char>, s: &str, i: usize) -> (r: Option<(Vec<String>, usize)>)
    requires
        cs@ == s@,
        i <= cs.len(),
    ensures
        r matches Some((v, k)) ==> list_items(cs@, i as int, Seq::empty()) == Some(
            (strings_view(v@), k as int),
        ) && k <= cs.len(),
        r is None ==> list_items(cs@, i as int, Seq::empty()) is None,
{
    let mut acc: Vec<String> = Vec::new();
    let mut p = i;
    assert(strings_view(acc@) =~= Seq::<Seq<char>>::empty());
    loop
        invariant
            cs@ == s@,
            p <= cs.len(),
            list_items(cs@, i as int, Seq::empty()) == list_items(
                cs@,
                p as int,
                strings_view(acc@),
            ),
        decreases cs.len() - p,
    {
        let j = skip_spaces(cs, p);
        if j < cs.len() && cs[j] == ']' {
            return Some((acc, j + 1));
        }
        match quoted(cs, s, j) {
            None => {
                return None;
            },
            Some((v, k)) => {
                let k2 = skip_spaces(cs, k);
                let ghost before = acc@;
                if k2 < cs.len() && cs[k2] == ',' {
                    acc.push(v);
                    assert(strings_view(acc@) =~= strings_view(before).push(v@));
                    p = k2 + 1;
                } else if k2 < cs.len() && cs[k2] == ']' {
                    acc.push(v);
                    assert(strings_view(acc@) =~= strings_view(before).push(v@));
                    return Some((acc, k2 + 1));
                } else {
                    return None;
                }
            },
        }
    }
}

fn value(cs: &Vec<char>, s: &str, i: usize, kind: BlockKind) -> (r: Option<(Value, usize)>)
    requires
        cs@ == s@,
        i <= cs.len(),
    ensures
        r matches Some((v, k)) ==> value_at(cs@, i as int, kind) == Some((v@, k as int)) && k
            <= cs.len(),
        r is None ==> value_at(cs@, i as int, kind) is None,
{
    proof {
        reveal_strlit("true");
        reveal_strlit("false");
        reveal_strlit("BLANK");
        reveal_strlit("DEFAULT");
    }
    match kind {
        BlockKind::Arrays => {
            if i < cs.len() && cs[i] == '[' {
                match list(cs, s, i + 1) {
                    Some((v, k)) => Some((Value::List(v), k)),
                    None => None,
                }
            } else {
                None
            }
        },
        BlockKind::Header => {
            if has_text(cs, i, "true") {
                Some((Value::Text(owned("true")), i + 4))
            } else if has_text(cs, i, "false") {
                Some((Value::Text(owned("false")), i + 5))
            } else if has_text(cs, i, "BLANK") {
                Some((Value::Text(owned("BLANK")), i + 5))
            } else {
                match quoted(cs, s, i) {
                    Some((v, k)) => Some((Value::Text(v), k)),
                    None => None,
                }
            }
        },
        _ => {
            if has_text(cs, i, "BLANK") {
                Some((Value::Text(owned("BLANK")), i + 5))
            } else if has_text(cs, i, "DEFAULT") {
                Some((Value::Text(owned("DEFAULT")), i + 7))
            } else {
                match quoted(cs, s, i) {
                    Some((v, k)) => Some((Value::Text(v), k)),
                    None => None,
                }
            }
        },
    }
}

fn assign(cs: &Vec<char>, s: &str, i: usize, kind: BlockKind) -> (r: Option<
    (bool, String, Value, usize),
>)
    requires
        cs@ == s@,
        i <= cs.len(),
    ensures
        r matches Some((l, k, v, n)) ==> assign_at(cs@, i as int, kind) == Some(
            (l, k@, v@, n as int),
        ) && n <= cs.len(),
        r is None ==> assign_at(cs@, i as int, kind) is None,
{
    let local = kind != BlockKind::Header && i < cs.len() && cs[i] == '*';
    let k0 = if local {
        skip_spaces(cs, i + 1)
    } else {
        i
    };
    let k1 = key_stop(cs, k0);
    let e = skip_spaces(cs, k1);
    if k0 < k1 && e < cs.len() && cs[e] == '=' {
        let vs = skip_spaces(cs, e + 1);
        match value(cs, s, vs, kind) {
            Some((v, n)) => Some((local, owned(s.substring_char(k0, k1)), v, n)),
            None => None,
        }
    } else {
        None
    }
}

fn assign_list(cs: &Vec<char>, s: &str, i: usize, kind: BlockKind) -> (r: Option<
    (Vec<(bool, String, Value)>, usize),
>)
    requires
        cs@ == s@,
        i <= cs.len(),
    ensures
        r matches Some((ds, n)) ==> assigns(cs@, i as int, kind, Seq::empty()) == Some(
            (defs_view(ds@), n as int),
        ) && n <= cs.len(),
        r is None ==> assigns(cs@, i as int, kind, Seq::empty()) is None,
{
    let mut acc: Vec<(bool, String, Value)> = Vec::new();
    let mut p = i;
    assert(defs_view(acc@) =~= Seq::<(bool, Seq<char>, DefValue)>::empty());
    loop
        invariant
            cs@ == s@,
            p <= cs.len(),
            assigns(cs@, i as int, kind, Seq::empty()) == assigns(
                cs@,
                p as int,
                kind,
                defs_view(acc@),
            ),
        decreases cs.len() - p,
    {
        let j = skip_spaces(cs, p);
        if j < cs.len() && cs[j] == '}' {
            return Some((acc, j + 1));
        }
        match assign(cs, s, j, kind) {
            None => {
                return None;
            },
            Some((l, k, v, n)) => {
                if p < n {
                    let ghost before = acc@;
                    let d = (l, k, v);
                    acc.push(d);
                    assert(defs_view(acc@) =~= defs_view(before).push((l, d.1@, d.2@)));
                    p = n;
                } else {
                    return None;
                }
            },
        }
    }
}

fn body(cs: &Vec<char>, s: &str, i: usize) -> (r: Option<Vec<Src>>)
    requires
        cs@ == s@,
        i <= cs.len(),
    ensures
        r matches Some(b) ==> body_from(cs@, i as int, Seq::empty()) == Some(segments_view(b@)),
        r is None ==> body_from(cs@, i as int, Seq::empty()) is None,
{
    let mut acc: Vec<Src> = Vec::new();
    let mut p = i;
    assert(segments_view(acc@) =~= Seq::<Segment>::empty());
    loop
        invariant
            cs@ == s@,
            p <= cs.len(),
            body_from(cs@, i as int, Seq::empty()) == body_from(
                cs@,
                p as int,
                segments_view(acc@),
            ),
        decreases cs.len() - p,
    {
        if p >= cs.len() {
            return Some(acc);
        }
        let ghost before = acc@;
        if is_opener(cs, p) && cs[p] == '-' {
            let j = crate::text::find_char(cs, p + 2, '}');
            proof {
                crate::text::lemma_next_char(cs@, p + 2, '}');
            }
            if j < cs.len() {
                p = j + 1;
            } else {
                return None;
            }
        } else if is_opener(cs, p) {
            let k = key_stop(cs, p + 2);
            if p + 2 < k && k < cs.len() && cs[k] == '}' {
                let key = s.substring_char(p + 2, k);
                let seg = if cs[p] == '$' {
                    Src::to_var(key)
                } else if cs[p] == '@' {
                    Src::to_arr(key)
                } else {
                    Src::to_pat(key)
                };
                acc.push(seg);
                assert(segments_view(acc@) =~= segments_view(before).push(seg@));
                p = k + 1;
            } else {
                return None;
            }
        } else {
            let j = literal_stop(cs, p);
            if p < j {
                let seg = Src::to_str(s.substring_char(p, j));
                acc.push(seg);
                assert(segments_view(acc@) =~= segments_view(before).push(seg@));
                p = j;
            } else {
                return None;
            }
        }
    }
}


pub open spec fn parts_of(
    hp: Seq<(String, String)>,
    vars: crate::scope::VarMap,
    arrs: crate::scope::ArrMap,
    pats: crate::scope::VarMap,
) -> FileParts {
    FileParts {
        header: pairs_view(hp),
        variables: var_entries(vars.entries@),
        arrays: arr_entries(arrs.entries@),
        patterns: var_entries(pats.entries@),
        body: Seq::empty(),
    }
}

fn scope_of(local: bool, key: String) -> (r: Scope)
    ensures
        r@ == scoped(local, key@),
{
    if local {
        Scope::Local(key)
    } else {
        Scope::Global(key)
    }
}

fn add_block(
    hp: &mut Vec<(String, String)>,
    vars: &mut crate::scope::VarMap,
    arrs: &mut crate::scope::ArrMap,
    pats: &mut crate::scope::VarMap,
    kind: BlockKind,
    ds: &Vec<(bool, String, Value)>,
)
    ensures
        parts_of(final(hp)@, *final(vars), *final(arrs), *final(pats)) == add_defs(
            parts_of(old(hp)@, *old(vars), *old(arrs), *old(pats)),
            kind,
            defs_view(ds@),
        ),
{
    let ghost start = parts_of(hp@, *vars, *arrs, *pats);
    let ghost dv = defs_view(ds@);
    let mut k: usize = 0;
    while k < ds.len()
        invariant
            k <= ds.len(),
            dv == defs_view(ds@),
            parts_of(hp@, *vars, *arrs, *pats) == add_defs(start, kind, dv.take(k as int)),
        decreases ds.len() - k,
    {
        let ghost hp0 = pairs_view(hp@);
        let ghost v0 = var_entries(vars.entries@);
        let ghost a0 = arr_entries(arrs.entries@);
        let ghost p0 = var_entries(pats.entries@);
        let local = ds[k].0;
        let key = ds[k].1.clone();
        assert(dv.take(k + 1).drop_last() == dv.take(k as int));
        match kind {
            BlockKind::Header => {
                let text = match &ds[k].2 {
                    Value::Text(t) => t.clone(),
                    Value::List(_) => String::new(),
                };
                hp.push((key, text));
                assert(pairs_view(hp@) =~= hp0.push((key@, text@)));
                assert(pairs_view(hp@) =~= start.header + def_pairs(dv.take(k + 1)));
            },
            BlockKind::Variables => {
                let text = match &ds[k].2 {
                    Value::Text(t) => t.clone(),
                    Value::List(_) => String::new(),
                };
                vars.insert(scope_of(local, key), text);
                assert(var_entries(vars.entries@) =~= v0.push((scoped(local, key@), text@)));
                assert(var_entries(vars.entries@) =~= start.variables + text_defs(dv.take(k + 1)));
            },
            BlockKind::Arrays => {
                let items = match &ds[k].2 {
                    Value::List(l) => crate::scope::clone_strings(l),
                    Value::Text(_) => Vec::new(),
                };
                proof {
                    if ds@[k as int].2 is Text {
                        assert(strings_view(items@) =~= Seq::<Seq<char>>::empty());
                    }
                }
                arrs.insert(scope_of(local, key), items);
                assert(arr_entries(arrs.entries@) =~= a0.push(
                    (scoped(local, key@), strings_view(items@)),
                ));
                assert(arr_entries(arrs.entries@) =~= start.arrays + list_defs(dv.take(k + 1)));
            },
            BlockKind::Patterns => {
                let text = match &ds[k].2 {
                    Value::Text(t) => t.clone(),
                    Value::List(_) => String::new(),
                };
                pats.insert(scope_of(local, key), text);
                assert(var_entries(pats.entries@) =~= p0.push((scoped(local, key@), text@)));
                assert(var_entries(pats.entries@) =~= start.patterns + text_defs(dv.take(k + 1)));
            },
        }
        assert(parts_of(hp@, *vars, *arrs, *pats) =~= add_defs(start, kind, dv.take(k + 1)));
        k = k + 1;
    }
    assert(dv.take(ds.len() as int) == dv);
}


/// Whether `f` is the file that the parts `p` describe.
pub open spec fn parsed_as(f: MetaFile, p: FileParts) -> bool {
    &&& f@.path.len() == 0
    &&& crate::header::header_from(f.header, p.header)
    &&& f@.variables == map_of(p.variables)
    &&& f@.arrays == map_of(p.arrays)
    &&& f@.patterns == map_of(p.patterns)
    &&& f@.source == p.body
}

/// Whether every key of a header names an option.
pub open spec fn header_keys_known(h: Seq<(Seq<char>, Seq<char>)>) -> bool {
    forall|i: int| 0 <= i < h.len() ==> is_header_option(#[trigger] h[i].0)
}

fn kind_of(c: char) -> (r: BlockKind)
    ensures
        r == block_kind(c),
{
    if c == '$' {
        BlockKind::Variables
    } else if c == '@' {
        BlockKind::Arrays
    } else if c == '&' {
        BlockKind::Patterns
    } else {
        BlockKind::Header
    }
}

fn syntax_error(text: &str) -> (r: MetaError)
    ensures
        r.kind() == ErrorKind::ParserError,
{
    MetaError::ParserError { file: String::new(), error: owned("the input does not follow the grammar") }
}

/// Parses the text of a file: an optional header block first, then
/// definition blocks, then the body. Text outside the grammar is a syntax
/// error; a header key that names no option is a header error.
pub fn parse_string(text: &str) -> (r: Result<MetaFile, MetaError>)
    ensures
        parse_parts(text@) is None ==> (r matches Err(e) && e.kind() == ErrorKind::ParserError),
        parse_parts(text@) matches Some(p) ==> if header_keys_known(p.header) {
            (r matches Ok(f) && parsed_as(f, p))
        } else {
            (r matches Err(e) && e.kind() == ErrorKind::Header)
        },
{
    let cs = to_chars(text);
    let mut hp: Vec<(String, String)> = Vec::new();
    let mut vars = crate::scope::VarMap::new();
    let mut arrs = crate::scope::ArrMap::new();
    let mut pats = crate::scope::VarMap::new();
    assert(pairs_view(hp@) =~= Seq::<(Seq<char>, Seq<char>)>::empty());
    assert(var_entries(vars.entries@) =~= Seq::<(ScopeName, Seq<char>)>::empty());
    assert(arr_entries(arrs.entries@) =~= Seq::<(ScopeName, Seq<Seq<char>>)>::empty());
    assert(var_entries(pats.entries@) =~= Seq::<(ScopeName, Seq<char>)>::empty());
    assert(parts_of(hp@, vars, arrs, pats) == no_parts());
    let j0 = skip_spaces(&cs, 0);
    let mut p: usize = 0;
    proof {
        reveal_strlit("#{");
    }
    if has_text(&cs, j0, "#{") {
        match assign_list(&cs, text, j0 + 2, BlockKind::Header) {
            None => {
                return Err(syntax_error(text));
            },
            Some((ds, n)) => {
                add_block(&mut hp, &mut vars, &mut arrs, &mut pats, BlockKind::Header, &ds);
                p = n;
            },
        }
    }
    let b: Vec<Src>;
    loop
        invariant
            cs@ == text@,
            p <= cs.len(),
            parse_parts(text@) == blocks_from(cs@, p as int, parts_of(hp@, vars, arrs, pats)),
        ensures
            parse_parts(text@) == Some(
                FileParts { body: segments_view(b@), ..parts_of(hp@, vars, arrs, pats) },
            ),
        decreases cs.len() - p,
    {
        let j = skip_spaces(&cs, p);
        if is_opener(&cs, j) && cs[j] != '-' {
            let kind = kind_of(cs[j]);
            match assign_list(&cs, text, j + 2, kind) {
                Some((ds, n)) => {
                    if p < n {
                        add_block(&mut hp, &mut vars, &mut arrs, &mut pats, kind, &ds);
                        p = n;
                        continue ;
                    } else {
                        return Err(syntax_error(text));
                    }
                },
                None => {},
            }
        }
        match body(&cs, text, j) {
            Some(v) => {
                b = v;
                break ;
            },
            None => {
                return Err(syntax_error(text));
            },
        }
    }
    let ghost parts = parse_parts(text@)->Some_0;
    let header = match Header::from_settings(&hp) {
        Ok(h) => h,
        Err(e) => {
            proof {
                let i = choose|i: int| 0 <= i < hp@.len() && !is_header_option(#[trigger] hp@[i].0@);
                assert(pairs_view(hp@)[i].0 == hp@[i].0@);
            }
            return Err(e);
        },
    };
    Ok(
        MetaFile {
            path: String::new(),
            header,
            variables: vars,
            arrays: arrs,
            patterns: pats,
            source: b,
        },
    )
}


/// How a body segment is written in a file.
pub open spec fn segment_source(seg: Segment) -> Seq<char> {
    match seg {
        Segment::Text(t) => t,
        Segment::Var(k) => seq!['$', '{'] + k + seq!['}'],
        Segment::Arr(k) => seq!['@', '{'] + k + seq!['}'],
        Segment::Pat(k) => seq!['&', '{'] + k + seq!['}'],
    }
}

/// A body written back as text: literals as they are, references as markers.
pub open spec fn render(segs: Seq<Segment>) -> Seq<char>
    decreases segs.len(),
{
    if segs.len() == 0 {
        Seq::empty()
    } else {
        render(segs.drop_last()) + segment_source(segs.last())
    }
}

/// Whether `s` holds no comment from `i` on.
pub open spec fn comment_free(s: Seq<char>, i: int) -> bool {
    forall|k: int| i <= k < s.len() ==> !(#[trigger] opener_at(s, k) && s[k] == '-')
}

proof fn lemma_body_round_trip(s: Seq<char>, i: int, acc: Seq<Segment>)
    requires
        0 <= i <= s.len(),
        comment_free(s, i),
        body_from(s, i, acc) is Some,
    ensures
        render(body_from(s, i, acc)->Some_0) == render(acc) + s.subrange(i, s.len() as int),
    decreases s.len() - i,
{
    if i >= s.len() {
        assert(s.subrange(i, s.len() as int) =~= Seq::<char>::empty());
        assert(render(acc) + Seq::<char>::empty() =~= render(acc));
    } else if opener_at(s, i) {
        assert(s[i] != '-');
        let k = key_end(s, i + 2);
        let key = s.subrange(i + 2, k);
        let seg = if s[i] == '$' {
            Segment::Var(key)
        } else if s[i] == '@' {
            Segment::Arr(key)
        } else {
            Segment::Pat(key)
        };
        lemma_body_round_trip(s, k + 1, acc.push(seg));
        assert(acc.push(seg).drop_last() == acc);
        assert(segment_source(seg) =~= s.subrange(i, k + 1));
        assert(s.subrange(i, k + 1) + s.subrange(k + 1, s.len() as int) =~= s.subrange(
            i,
            s.len() as int,
        ));
        assert(render(acc) + segment_source(seg) + s.subrange(k + 1, s.len() as int) =~= render(
            acc,
        ) + s.subrange(i, s.len() as int));
    } else {
        let j = literal_end(s, i);
        let seg = Segment::Text(s.subrange(i, j));
        lemma_body_round_trip(s, j, acc.push(seg));
        assert(acc.push(seg).drop_last() == acc);
        assert(s.subrange(i, j) + s.subrange(j, s.len() as int) =~= s.subrange(i, s.len() as int));
        assert(render(acc) + s.subrange(i, j) + s.subrange(j, s.len() as int) =~= render(acc)
            + s.subrange(i, s.len() as int));
    }
}

/// Writing back the body that a comment-free text parses to gives the text
/// again: literals and reference markers keep their order and positions.
pub proof fn law_body_round_trip(s: Seq<char>)
    requires
        comment_free(s, 0),
        body_from(s, 0, Seq::empty()) is Some,
    ensures
        render(body_from(s, 0, Seq::empty())->Some_0) == s,
{
    lemma_body_round_trip(s, 0, Seq::empty());
    assert(render(Seq::<Segment>::empty()) + s.subrange(0, s.len() as int) =~= s);
}

proof fn lemma_blocks_round_trip(s: Seq<char>, i: int, p: FileParts)
    requires
        0 <= i <= s.len(),
        comment_free(s, 0),
        blocks_from(s, i, p) is Some,
    ensures
        exists|j: int|
            i <= j <= s.len() && render(blocks_from(s, i, p)->Some_0.body) == s.subrange(
                j,
                s.len() as int,
            ),
    decreases s.len() - i,
{
    let j = skip_ws(s, i);
    lemma_skip_ws(s, i);
    if opener_at(s, j) && is_sigil(s[j]) && assigns(s, j + 2, block_kind(s[j]), Seq::empty()) is Some {
        let (ds, n) = assigns(s, j + 2, block_kind(s[j]), Seq::empty())->Some_0;
        lemma_blocks_round_trip(s, n, add_defs(p, block_kind(s[j]), ds));
    } else {
        lemma_body_round_trip(s, j, Seq::empty());
        assert(render(Seq::<Segment>::empty()) + s.subrange(j, s.len() as int) =~= s.subrange(
            j,
            s.len() as int,
        ));
    }
}

proof fn lemma_skip_ws(s: Seq<char>, i: int)
    requires
        0 <= i <= s.len(),
    ensures
        i <= skip_ws(s, i) <= s.len(),
    decreases s.len() - i,
{
    if i < s.len() && is_ws(s[i]) {
        lemma_skip_ws(s, i + 1);
    }
}

/// Writing back the body of a parsed comment-free file gives the file's
/// text from the start of its body on.
pub proof fn law_file_round_trip(s: Seq<char>)
    requires
        comment_free(s, 0),
        parse_parts(s) is Some,
    ensures
        exists|j: int|
            0 <= j <= s.len() && render(parse_parts(s)->Some_0.body) == s.subrange(
                j,
                s.len() as int,
            ),
{
    let j = skip_ws(s, 0);
    lemma_skip_ws(s, 0);
    if text_at(s, j, "#{"@) {
        let (ds, n) = assigns(s, j + 2, BlockKind::Header, Seq::empty())->Some_0;
        lemma_assigns_bound(s, j + 2, BlockKind::Header, Seq::empty());
        lemma_blocks_round_trip(s, n, add_defs(no_parts(), BlockKind::Header, ds));
    } else {
        lemma_blocks_round_trip(s, 0, no_parts());
    }
}

proof fn lemma_assigns_bound(
    s: Seq<char>,
    i: int,
    kind: BlockKind,
    acc: Seq<(bool, Seq<char>, DefValue)>,
)
    requires
        0 <= i,
        assigns(s, i, kind, acc) is Some,
    ensures
        assigns(s, i, kind, acc)->Some_0.1 <= s.len(),
        assigns(s, i, kind, acc)->Some_0.1 >= 0,
    decreases s.len() - i,
{
    let j = skip_ws(s, i);
    if i <= s.len() {
        lemma_skip_ws(s, i);
    }
    if j < s.len() && s[j] == '}' {
    } else {
        let (l, k, v, n) = assign_at(s, j, kind)->Some_0;
        lemma_assigns_bound(s, n, kind, acc.push((l, k, v)));
    }
}

/// The body of a text that holds nothing but a body.
pub fn parse_source(text: &str) -> (r: Result<Vec<Src>, MetaError>)
    ensures
        r matches Ok(b) ==> body_from(text@, 0, Seq::empty()) == Some(segments_view(b@)),
        r is Err ==> body_from(text@, 0, Seq::empty()) is None,
{
    let cs = to_chars(text);
    match body(&cs, text, 0) {
        Some(b) => Ok(b),
        None => Err(syntax_error(text)),
    }
}

/// The parser of the file format.
pub struct MetaParser;

impl MetaParser {
    /// Parses the text of a file.
    pub fn parse(text: &str) -> (r: Result<MetaFile, MetaError>)
        ensures
            parse_parts(text@) is None ==> (r matches Err(e) && e.kind() == ErrorKind::ParserError),
            parse_parts(text@) matches Some(p) ==> if header_keys_known(p.header) {
                (r matches Ok(f) && parsed_as(f, p))
            } else {
                (r matches Err(e) && e.kind() == ErrorKind::Header)
            },
    {
        parse_string(text)
    }
}

impl MetaFile {
    /// The file at `path` whose text is `text`; a syntax error names the path.
    pub fn build(path: &str, text: &str) -> (r: Result<MetaFile, MetaError>)
        ensures
            parse_parts(text@) is None ==> (r matches Err(e) && e.kind() == ErrorKind::ParserError),
            parse_parts(text@) matches Some(p) ==> if header_keys_known(p.header) {
                (r matches Ok(f) && f@.path == path@ && crate::header::header_from(f.header, p.header) && f@.variables == map_of(
                    p.variables,
                ) && f@.arrays == map_of(p.arrays) && f@.patterns == map_of(p.patterns)
                    && f@.source == p.body)
            } else {
                (r matches Err(e) && e.kind() == ErrorKind::Header)
            },
    {
        match parse_string(text) {
            Ok(mut f) => {
                f.path = owned(path);
                Ok(f)
            },
            Err(MetaError::ParserError { error, .. }) => Err(
                MetaError::ParserError { file: owned(path), error },
            ),
            Err(e) => Err(e),
        }
    }

    /// The body written back as text, references as their markers: what a
    /// `copy_only` file writes.
    pub fn copy_text(&self) -> (r: String)
        ensures
            r@ == render(self@.source),
    {
        let ghost sv = self@.source;
        let mut out = String::new();
        let mut i: usize = 0;
        while i < self.source.len()
            invariant
                i <= self.source.len(),
                sv == segments_view(self.source@),
                out@ == render(sv.take(i as int)),
            decreases self.source.len() - i,
        {
            assert(sv.take(i + 1).drop_last() == sv.take(i as int));
            let ghost before = out@;
            match &self.source[i] {
                Src::Str(t) => {
                    out.append(t.as_str());
                },
                Src::Var(k) => {
                    out.append("${");
                    out.append(k.as_str());
                    out.append("}");
                },
                Src::Arr(k) => {
                    out.append("@{");
                    out.append(k.as_str());
                    out.append("}");
                },
                Src::Pat(k) => {
                    out.append("&{");
                    out.append(k.as_str());
                    out.append("}");
                },
            }
            proof {
                reveal_strlit("${");
                reveal_strlit("@{");
                reveal_strlit("&{");
                reveal_strlit("}");
                assert(out@ =~= before + segment_source(sv[i as int]));
            }
            i = i + 1;
        }
        assert(sv.take(self.source.len() as int) == sv);
        out
    }
}

} // verus!
