use vstd::prelude::*;

use crate::document::{doc_name, merged, DocModel, MetaFile, Options, Segment, Src};
use crate::error::{ErrorKind, MetaError};
use crate::scope::{clone_strings, strings_view, ArrMap, Scope, ScopeName, VarMap};
use crate::text::{concat, dots_to_slashes, owned, replace_dots, same_text};

verus! {

/// How deep patterns may include other patterns before resolution gives up
/// and reports a suspected cycle.
pub const MAX_PATTERN_DEPTH: usize = 64;

/// A file that a build may include: its path relative to the pattern root,
/// and the file as parsed, or the error that parsing it gave.
#[derive(Debug)]
pub struct StoredFile {
    pub rel: String,
    pub file: Result<MetaFile, MetaError>,
}

/// The pattern files of a site, read ahead of the build.
#[derive(Debug)]
pub struct PatternStore {
    pub entries: Vec<StoredFile>,
}

pub open spec fn stored_view(e: StoredFile) -> (Seq<char>, Result<DocModel, ErrorKind>) {
    (
        e.rel@,
        match e.file {
            Ok(f) => Ok(f@),
            Err(x) => Err(x.kind()),
        },
    )
}

impl View for PatternStore {
    type V = Seq<(Seq<char>, Result<DocModel, ErrorKind>)>;

    open spec fn view(&self) -> Seq<(Seq<char>, Result<DocModel, ErrorKind>)> {
        self.entries@.map_values(|e: StoredFile| stored_view(e))
    }
}

/// The file stored last under `rel`, if any.
pub open spec fn store_get(
    st: Seq<(Seq<char>, Result<DocModel, ErrorKind>)>,
    rel: Seq<char>,
) -> Option<Result<DocModel, ErrorKind>>
    decreases st.len(),
{
    if st.len() == 0 {
        None
    } else if st.last().0 == rel {
        Some(st.last().1)
    } else {
        store_get(st.drop_last(), rel)
    }
}

/// A piece of a resolved body: text, or the place of an array's items.
pub enum Piece {
    Text(String),
    Slot(String),
}

pub enum PieceModel {
    Text(Seq<char>),
    Slot(Seq<char>),
}

impl View for Piece {
    type V = PieceModel;

    open spec fn view(&self) -> PieceModel {
        match self {
            Piece::Text(t) => PieceModel::Text(t@),
            Piece::Slot(k) => PieceModel::Slot(k@),
        }
    }
}

pub open spec fn pieces_view(v: Seq<Piece>) -> Seq<PieceModel> {
    v.map_values(|p: Piece| p@)
}

/// A piece of a body ready for broadcasting: text, or the items of an array.
pub enum Chunk {
    Text(String),
    Items(Vec<String>),
}

pub enum ChunkModel {
    Text(Seq<char>),
    Items(Seq<Seq<char>>),
}

impl View for Chunk {
    type V = ChunkModel;

    open spec fn view(&self) -> ChunkModel {
        match self {
            Chunk::Text(t) => ChunkModel::Text(t@),
            Chunk::Items(v) => ChunkModel::Items(strings_view(v@)),
        }
    }
}

pub open spec fn chunks_view(v: Seq<Chunk>) -> Seq<ChunkModel> {
    v.map_values(|c: Chunk| c@)
}

/// `name.key`
pub open spec fn qualified(name: Seq<char>, key: Seq<char>) -> Seq<char> {
    name.push('.') + key
}

/// The lookup chain of a reference made in the file named `name`: the key
/// qualified by the name, local then global, then the bare key, local then
/// global.
pub open spec fn lookup_chain<V>(m: Map<ScopeName, V>, name: Seq<char>, key: Seq<char>) -> Option<V> {
    let long = qualified(name, key);
    if m.contains_key(ScopeName::Local(long)) {
        Some(m[ScopeName::Local(long)])
    } else if m.contains_key(ScopeName::Global(long)) {
        Some(m[ScopeName::Global(long)])
    } else if m.contains_key(ScopeName::Local(key)) {
        Some(m[ScopeName::Local(key)])
    } else if m.contains_key(ScopeName::Global(key)) {
        Some(m[ScopeName::Global(key)])
    } else {
        None
    }
}

/// Whether an undefined reference in `d` is an error.
pub open spec fn strict_undefined(d: DocModel, o: Options) -> bool {
    o.undefined || d.header.panic_undefined
}

/// The value of the variable `key` as referenced in `d`.
pub open spec fn variable_value(d: DocModel, o: Options, key: Seq<char>) -> Result<Seq<char>, ErrorKind> {
    match doc_name(d.path, o) {
        None => Err(ErrorKind::Name),
        Some(n) => match lookup_chain(d.variables, n, key) {
            Some(v) => if v == "BLANK"@ {
                Ok(Seq::empty())
            } else {
                Ok(v)
            },
            None => if strict_undefined(d, o) {
                Err(ErrorKind::UndefinedExpand)
            } else {
                Ok(Seq::empty())
            },
        },
    }
}

/// The items of the array `key` as referenced in `d`.
pub open spec fn array_value(d: DocModel, o: Options, key: Seq<char>) -> Result<Seq<Seq<char>>, ErrorKind> {
    match doc_name(d.path, o) {
        None => Err(ErrorKind::Name),
        Some(n) => match lookup_chain(d.arrays, n, key) {
            Some(v) => Ok(v),
            None => if strict_undefined(d, o) {
                Err(ErrorKind::UndefinedExpand)
            } else {
                Ok(Seq::empty())
            },
        },
    }
}

/// Which file the pattern `key` names in `d`: `None` where it is `BLANK`.
pub open spec fn pattern_file(d: DocModel, o: Options, key: Seq<char>) -> Result<Option<Seq<char>>, ErrorKind> {
    match doc_name(d.path, o) {
        None => Err(ErrorKind::Name),
        Some(n) => match lookup_chain(d.patterns, n, key) {
            Some(f) => if f == "BLANK"@ {
                Ok(None)
            } else if f == "DEFAULT"@ {
                Ok(Some("default"@))
            } else {
                Ok(Some(f))
            },
            None => if d.header.panic_default {
                Err(ErrorKind::UndefinedDefault)
            } else {
                Ok(Some("default"@))
            },
        },
    }
}

/// The path of a pattern file relative to the pattern root.
pub open spec fn pattern_rel_path(key: Seq<char>, file: Seq<char>) -> Seq<char> {
    dots_to_slashes(key).push('/') + file + ".meta"@
}

/// What the pattern `key` resolves to inside `d`.
pub open spec fn pattern_text(
    d: DocModel,
    st: Seq<(Seq<char>, Result<DocModel, ErrorKind>)>,
    o: Options,
    key: Seq<char>,
    fuel: nat,
) -> Result<Seq<char>, ErrorKind>
    decreases fuel, 0nat, 0nat,
{
    if key == "SOURCE"@ {
        if d.patterns.contains_key(ScopeName::Global("SOURCE"@)) {
            Ok(d.patterns[ScopeName::Global("SOURCE"@)])
        } else {
            Ok(Seq::empty())
        }
    } else {
        match pattern_file(d, o, key) {
            Err(e) => Err(e),
            Ok(None) => Ok(Seq::empty()),
            Ok(Some(f)) => match store_get(st, pattern_rel_path(key, f)) {
                None => Err(ErrorKind::FileNotFound),
                Some(Err(e)) => Err(e),
                Some(Ok(p)) => if fuel == 0 {
                    Err(ErrorKind::PatternCycle)
                } else {
                    resolve_doc(merged(p, d), st, o, (fuel - 1) as nat)
                },
            },
        }
    }
}

/// The body of `d`, piece by piece, up to the expansion of arrays.
pub open spec fn assemble(
    d: DocModel,
    st: Seq<(Seq<char>, Result<DocModel, ErrorKind>)>,
    o: Options,
    fuel: nat,
    segs: Seq<Segment>,
) -> Result<Seq<PieceModel>, ErrorKind>
    decreases fuel, 1nat, segs.len(),
{
    if segs.len() == 0 {
        Ok(Seq::empty())
    } else {
        match assemble(d, st, o, fuel, segs.drop_last()) {
            Err(e) => Err(e),
            Ok(ps) => match segs.last() {
                Segment::Text(t) => Ok(ps.push(PieceModel::Text(t))),
                Segment::Var(k) => match variable_value(d, o, k) {
                    Err(e) => Err(e),
                    Ok(v) => Ok(ps.push(PieceModel::Text(v))),
                },
                Segment::Pat(k) => match pattern_text(d, st, o, k, fuel) {
                    Err(e) => Err(e),
                    Ok(v) => Ok(ps.push(PieceModel::Text(v))),
                },
                Segment::Arr(k) => Ok(ps.push(PieceModel::Slot(k))),
            },
        }
    }
}

/// The output of `d`'s body.
pub open spec fn resolve_doc(
    d: DocModel,
    st: Seq<(Seq<char>, Result<DocModel, ErrorKind>)>,
    o: Options,
    fuel: nat,
) -> Result<Seq<char>, ErrorKind>
    decreases fuel, 2nat, 0nat,
{
    if d.header.blank {
        Ok(Seq::empty())
    } else if d.header.ignore {
        Err(ErrorKind::Ignored)
    } else {
        match assemble(d, st, o, fuel, d.source) {
            Err(e) => Err(e),
            Ok(ps) => finish(d, o, ps),
        }
    }
}

pub open spec fn has_slot(ps: Seq<PieceModel>) -> bool {
    exists|i: int| 0 <= i < ps.len() && ps[i] is Slot
}

/// The pieces with each array slot replaced by the array's items.
pub open spec fn fill(d: DocModel, o: Options, ps: Seq<PieceModel>) -> Result<Seq<ChunkModel>, ErrorKind>
    decreases ps.len(),
{
    if ps.len() == 0 {
        Ok(Seq::empty())
    } else {
        match fill(d, o, ps.drop_last()) {
            Err(e) => Err(e),
            Ok(cs) => match ps.last() {
                PieceModel::Text(t) => Ok(cs.push(ChunkModel::Text(t))),
                PieceModel::Slot(k) => match array_value(d, o, k) {
                    Err(e) => Err(e),
                    Ok(v) => Ok(cs.push(ChunkModel::Items(v))),
                },
            },
        }
    }
}

/// The length of the longest array among the chunks.
pub open spec fn max_len(cs: Seq<ChunkModel>) -> nat
    decreases cs.len(),
{
    if cs.len() == 0 {
        0
    } else {
        let m = max_len(cs.drop_last());
        match cs.last() {
            ChunkModel::Items(v) => if v.len() > m {
                v.len()
            } else {
                m
            },
            ChunkModel::Text(_) => m,
        }
    }
}

/// Whether every array among the chunks has `n` items.
pub open spec fn all_of_len(cs: Seq<ChunkModel>, n: nat) -> bool {
    forall|i: int| 0 <= i < cs.len() ==> (#[trigger] cs[i] matches ChunkModel::Items(v) ==> v.len() == n)
}

/// How many times the body is repeated.
pub open spec fn broadcast_count(cs: Seq<ChunkModel>, equal_arrays: bool) -> Result<nat, ErrorKind> {
    if equal_arrays && !all_of_len(cs, max_len(cs)) {
        Err(ErrorKind::UnequalArrays)
    } else {
        Ok(max_len(cs))
    }
}

/// The body with each array replaced by its `i`-th item, or by nothing where
/// the array is shorter.
pub open spec fn row(cs: Seq<ChunkModel>, i: nat) -> Seq<char>
    decreases cs.len(),
{
    if cs.len() == 0 {
        Seq::empty()
    } else {
        row(cs.drop_last(), i) + match cs.last() {
            ChunkModel::Text(t) => t,
            ChunkModel::Items(v) => if i < v.len() {
                v[i as int]
            } else {
                Seq::empty()
            },
        }
    }
}

/// The rows for the indices below `n`, one after the other.
pub open spec fn expansion(cs: Seq<ChunkModel>, n: nat) -> Seq<char>
    decreases n,
{
    if n == 0 {
        Seq::empty()
    } else {
        expansion(cs, (n - 1) as nat) + row(cs, (n - 1) as nat)
    }
}

/// The text of pieces without array slots.
pub open spec fn plain_text(ps: Seq<PieceModel>) -> Seq<char>
    decreases ps.len(),
{
    if ps.len() == 0 {
        Seq::empty()
    } else {
        plain_text(ps.drop_last()) + match ps.last() {
            PieceModel::Text(t) => t,
            PieceModel::Slot(_) => Seq::empty(),
        }
    }
}

/// The broadcast of pieces: their text where no array is referenced, else
/// one row for each index up to the count.
pub open spec fn finish(d: DocModel, o: Options, ps: Seq<PieceModel>) -> Result<Seq<char>, ErrorKind> {
    if !has_slot(ps) {
        Ok(plain_text(ps))
    } else {
        match fill(d, o, ps) {
            Err(e) => Err(e),
            Ok(cs) => match broadcast_count(cs, d.header.equal_arrays) {
                Err(e) => Err(e),
                Ok(n) => Ok(expansion(cs, n)),
            },
        }
    }
}

/// A result in the mathematical form.
pub open spec fn text_result(r: Result<String, MetaError>) -> Result<Seq<char>, ErrorKind> {
    match r {
        Ok(s) => Ok(s@),
        Err(e) => Err(e.kind()),
    }
}


impl PatternStore {
    pub fn new() -> (r: PatternStore)
        ensures
            r@.len() == 0,
    {
        PatternStore { entries: Vec::new() }
    }

    /// Stores a file under its path relative to the pattern root.
    pub fn insert(&mut self, rel: String, file: Result<MetaFile, MetaError>)
        ensures
            final(self)@ == old(self)@.push(stored_view(StoredFile { rel, file })),
    {
        let e = StoredFile { rel, file };
        self.entries.push(e);
        assert(self@ =~= old(self)@.push(stored_view(e)));
    }

    /// Parses the pattern file at `rel` below `pattern_root` from its text,
    /// and stores it, or the error that parsing gave, under `rel`.
    pub fn load(&mut self, pattern_root: &str, rel: &str, text: &str)
        ensures
            final(self)@.len() == old(self)@.len() + 1,
            final(self)@.drop_last() == old(self)@,
            final(self)@.last().0 == rel@,
            crate::parser::parse_parts(text@) is None ==> final(self)@.last().1 == Err::<
                DocModel,
                ErrorKind,
            >(ErrorKind::ParserError),
            crate::parser::parse_parts(text@) matches Some(p) ==> if crate::parser::header_keys_known(
                p.header,
            ) {
                (final(self)@.last().1 matches Ok(d) && d.path == crate::document::joined(
                    pattern_root@,
                    rel@,
                ) && crate::header::header_from(d.header, p.header) && d.variables
                    == crate::scope::map_of(p.variables) && d.arrays == crate::scope::map_of(
                    p.arrays,
                ) && d.patterns == crate::scope::map_of(p.patterns) && d.source == p.body)
            } else {
                final(self)@.last().1 == Err::<DocModel, ErrorKind>(ErrorKind::Header)
            },
    {
        let path = crate::document::join_dir(pattern_root, rel);
        let f = MetaFile::build(path.as_str(), text);
        self.insert(owned(rel), f);
        assert(self@.drop_last() =~= old(self)@);
    }

    /// The file stored last under `rel`.
    pub fn get(&self, rel: &str) -> (r: Option<&Result<MetaFile, MetaError>>)
        ensures
            r matches Some(x) ==> store_get(self@, rel@) == Some(
                match x {
                    Ok(f) => Ok::<DocModel, ErrorKind>(f@),
                    Err(e) => Err(e.kind()),
                },
            ),
            r is None ==> store_get(self@, rel@) is None,
    {
        let ghost st = self@;
        let mut i: usize = self.entries.len();
        assert(st.take(i as int) == st);
        while i > 0
            invariant
                i <= self.entries.len(),
                st == self@,
                store_get(st, rel@) == store_get(st.take(i as int), rel@),
            decreases i,
        {
            assert(st.take(i as int).drop_last() == st.take(i - 1));
            if same_text(self.entries[i - 1].rel.as_str(), rel) {
                return Some(&self.entries[i - 1].file);
            }
            i = i - 1;
        }
        None
    }
}

fn qualified_key(name: &str, key: &str) -> (r: String)
    ensures
        r@ == qualified(name@, key@),
{
    proof {
        reveal_strlit(".");
        assert("."@ =~= seq!['.']);
    }
    let a = concat(name, ".");
    concat(a.as_str(), key)
}

fn lookup_text<'a>(m: &'a VarMap, name: &str, key: &str) -> (r: Option<&'a String>)
    ensures
        r matches Some(v) ==> lookup_chain(m@, name@, key@) == Some(v@),
        r is None ==> lookup_chain(m@, name@, key@) is None,
{
    let long = qualified_key(name, key);
    if let Some(v) = m.get(&Scope::create_local(long.as_str())) {
        return Some(v);
    }
    if let Some(v) = m.get(&Scope::create_global(long.as_str())) {
        return Some(v);
    }
    if let Some(v) = m.get(&Scope::create_local(key)) {
        return Some(v);
    }
    m.get(&Scope::create_global(key))
}

fn lookup_items<'a>(m: &'a ArrMap, name: &str, key: &str) -> (r: Option<&'a Vec<String>>)
    ensures
        r matches Some(v) ==> lookup_chain(m@, name@, key@) == Some(strings_view(v@)),
        r is None ==> lookup_chain(m@, name@, key@) is None,
{
    let long = qualified_key(name, key);
    if let Some(v) = m.get(&Scope::create_local(long.as_str())) {
        return Some(v);
    }
    if let Some(v) = m.get(&Scope::create_global(long.as_str())) {
        return Some(v);
    }
    if let Some(v) = m.get(&Scope::create_local(key)) {
        return Some(v);
    }
    m.get(&Scope::create_global(key))
}

/// The value of the variable `key` as referenced in `file`.
pub fn get_variable(key: &str, file: &MetaFile, opts: &Options) -> (r: Result<String, MetaError>)
    ensures
        text_result(r) == variable_value(file@, *opts, key@),
{
    let name = file.name(opts)?;
    match lookup_text(&file.variables, name.as_str(), key) {
        Some(v) => {
            if same_text(v.as_str(), "BLANK") {
                Ok(String::new())
            } else {
                Ok(v.clone())
            }
        },
        None => {
            if opts.undefined || file.header.panic_undefined {
                Err(MetaError::UndefinedExpand { val: owned(key), path: name })
            } else {
                Ok(String::new())
            }
        },
    }
}

/// The items of the array `key` as referenced in `file`.
pub fn get_array(key: &str, file: &MetaFile, opts: &Options) -> (r: Result<Vec<String>, MetaError>)
    ensures
        r matches Ok(v) ==> array_value(file@, *opts, key@) == Ok::<Seq<Seq<char>>, ErrorKind>(
            strings_view(v@),
        ),
        r matches Err(e) ==> array_value(file@, *opts, key@) == Err::<Seq<Seq<char>>, ErrorKind>(
            e.kind(),
        ),
{
    let name = file.name(opts)?;
    match lookup_items(&file.arrays, name.as_str(), key) {
        Some(v) => Ok(clone_strings(v)),
        None => {
            if opts.undefined || file.header.panic_undefined {
                Err(MetaError::UndefinedExpand { val: owned(key), path: name })
            } else {
                let e: Vec<String> = Vec::new();
                assert(strings_view(e@) =~= Seq::<Seq<char>>::empty());
                Ok(e)
            }
        },
    }
}

/// Which file the pattern `key` names in `file`; `None` where it is `BLANK`.
pub fn pattern_filename(key: &str, file: &MetaFile, opts: &Options) -> (r: Result<
    Option<String>,
    MetaError,
>)
    ensures
        r matches Ok(Some(f)) ==> pattern_file(file@, *opts, key@) == Ok::<
            Option<Seq<char>>,
            ErrorKind,
        >(Some(f@)),
        r matches Ok(None) ==> pattern_file(file@, *opts, key@) == Ok::<
            Option<Seq<char>>,
            ErrorKind,
        >(None),
        r matches Err(e) ==> pattern_file(file@, *opts, key@) == Err::<
            Option<Seq<char>>,
            ErrorKind,
        >(e.kind()),
{
    let name = file.name(opts)?;
    match lookup_text(&file.patterns, name.as_str(), key) {
        Some(f) => {
            if same_text(f.as_str(), "BLANK") {
                Ok(None)
            } else if same_text(f.as_str(), "DEFAULT") {
                Ok(Some(owned("default")))
            } else {
                Ok(Some(f.clone()))
            }
        },
        None => {
            if file.header.panic_default {
                Err(MetaError::UndefinedDefault { pattern: owned(key), path: file.path.clone() })
            } else {
                Ok(Some(owned("default")))
            }
        },
    }
}

fn pattern_path(key: &str, f: &str) -> (r: String)
    ensures
        r@ == pattern_rel_path(key@, f@),
{
    proof {
        reveal_strlit("/");
        assert("/"@ =~= seq!['/']);
    }
    let a = replace_dots(key);
    let b = concat(a.as_str(), "/");
    let c = concat(b.as_str(), f);
    concat(c.as_str(), ".meta")
}

fn pattern_at_depth(
    key: &str,
    file: &MetaFile,
    store: &PatternStore,
    opts: &Options,
    fuel: usize,
) -> (r: Result<String, MetaError>)
    ensures
        text_result(r) == pattern_text(file@, store@, *opts, key@, fuel as nat),
    decreases fuel, 0nat, 0nat,
{
    if same_text(key, "SOURCE") {
        return match file.patterns.get(&Scope::create_global("SOURCE")) {
            Some(s) => Ok(s.clone()),
            None => Ok(String::new()),
        };
    }
    let f = match pattern_filename(key, file, opts)? {
        None => {
            return Ok(String::new());
        },
        Some(f) => f,
    };
    let rel = pattern_path(key, f.as_str());
    match store.get(rel.as_str()) {
        None => {
            let a = concat(opts.pattern.as_str(), "/");
            Err(MetaError::FileNotFound { path: concat(a.as_str(), rel.as_str()) })
        },
        Some(Err(e)) => Err(e.clone_error()),
        Some(Ok(p)) => {
            if fuel == 0 {
                return Err(MetaError::PatternCycle { pattern: owned(key), path: file.path.clone() });
            }
            let mut pattern = p.duplicate();
            pattern.merge(file);
            resolve_at_depth(&pattern, store, opts, fuel - 1)
        },
    }
}

/// What the pattern `key` resolves to inside `file`.
pub fn get_pattern(key: &str, file: &MetaFile, store: &PatternStore, opts: &Options) -> (r: Result<
    String,
    MetaError,
>)
    ensures
        text_result(r) == pattern_text(file@, store@, *opts, key@, MAX_PATTERN_DEPTH as nat),
{
    pattern_at_depth(key, file, store, opts, MAX_PATTERN_DEPTH)
}

proof fn lemma_assemble_failed_prefix(
    d: DocModel,
    st: Seq<(Seq<char>, Result<DocModel, ErrorKind>)>,
    o: Options,
    fuel: nat,
    segs: Seq<Segment>,
    j: int,
)
    requires
        0 <= j <= segs.len(),
        assemble(d, st, o, fuel, segs.take(j)) is Err,
    ensures
        assemble(d, st, o, fuel, segs) == assemble(d, st, o, fuel, segs.take(j)),
    decreases segs.len() - j,
{
    if j < segs.len() {
        assert(segs.take(j + 1).drop_last() == segs.take(j));
        lemma_assemble_failed_prefix(d, st, o, fuel, segs, j + 1);
    } else {
        assert(segs.take(j) == segs);
    }
}

proof fn lemma_fill_failed_prefix(d: DocModel, o: Options, ps: Seq<PieceModel>, j: int)
    requires
        0 <= j <= ps.len(),
        fill(d, o, ps.take(j)) is Err,
    ensures
        fill(d, o, ps) == fill(d, o, ps.take(j)),
    decreases ps.len() - j,
{
    if j < ps.len() {
        assert(ps.take(j + 1).drop_last() == ps.take(j));
        lemma_fill_failed_prefix(d, o, ps, j + 1);
    } else {
        assert(ps.take(j) == ps);
    }
}

fn assemble_pieces(file: &MetaFile, store: &PatternStore, opts: &Options, fuel: usize) -> (r: Result<
    Vec<Piece>,
    MetaError,
>)
    ensures
        r matches Ok(v) ==> assemble(file@, store@, *opts, fuel as nat, file@.source) == Ok::<
            Seq<PieceModel>,
            ErrorKind,
        >(pieces_view(v@)),
        r matches Err(e) ==> assemble(file@, store@, *opts, fuel as nat, file@.source) == Err::<
            Seq<PieceModel>,
            ErrorKind,
        >(e.kind()),
    decreases fuel, 1nat, 0nat,
{
    let ghost segs = file@.source;
    let mut out: Vec<Piece> = Vec::new();
    let mut i: usize = 0;
    assert(pieces_view(out@) =~= Seq::<PieceModel>::empty());
    while i < file.source.len()
        invariant
            i <= file.source.len(),
            segs == file@.source,
            segs.len() == file.source.len(),
            assemble(file@, store@, *opts, fuel as nat, segs.take(i as int)) == Ok::<
                Seq<PieceModel>,
                ErrorKind,
            >(pieces_view(out@)),
        decreases file.source.len() - i,
    {
        assert(segs.take(i + 1).drop_last() == segs.take(i as int));
        assert(segs.take(i + 1).last() == file.source@[i as int]@);
        let piece = match &file.source[i] {
            Src::Str(t) => Piece::Text(t.clone()),
            Src::Var(k) => match get_variable(k.as_str(), file, opts) {
                Ok(v) => Piece::Text(v),
                Err(e) => {
                    proof {
                        lemma_assemble_failed_prefix(file@, store@, *opts, fuel as nat, segs, i + 1);
                    }
                    return Err(e);
                },
            },
            Src::Pat(k) => match pattern_at_depth(k.as_str(), file, store, opts, fuel) {
                Ok(v) => Piece::Text(v),
                Err(e) => {
                    proof {
                        lemma_assemble_failed_prefix(file@, store@, *opts, fuel as nat, segs, i + 1);
                    }
                    return Err(e);
                },
            },
            Src::Arr(k) => Piece::Slot(k.clone()),
        };
        let ghost before = out@;
        out.push(piece);
        assert(pieces_view(out@) =~= pieces_view(before).push(piece@));
        i = i + 1;
    }
    assert(segs.take(file.source.len() as int) == segs);
    Ok(out)
}

fn resolve_at_depth(file: &MetaFile, store: &PatternStore, opts: &Options, fuel: usize) -> (r: Result<
    String,
    MetaError,
>)
    ensures
        text_result(r) == resolve_doc(file@, store@, *opts, fuel as nat),
    decreases fuel, 2nat, 0nat,
{
    if file.header.blank {
        return Ok(String::new());
    }
    if file.header.ignore {
        return Err(MetaError::Ignored);
    }
    let pieces = assemble_pieces(file, store, opts, fuel)?;
    expand_arrays(&pieces, file, opts)
}

/// The output of `file`'s body: every reference resolved and every array
/// broadcast.
pub fn metafile_to_string(file: &MetaFile, store: &PatternStore, opts: &Options) -> (r: Result<
    String,
    MetaError,
>)
    ensures
        text_result(r) == resolve_doc(file@, store@, *opts, MAX_PATTERN_DEPTH as nat),
{
    resolve_at_depth(file, store, opts, MAX_PATTERN_DEPTH)
}


fn any_slot(ps: &Vec<Piece>) -> (r: bool)
    ensures
        r == has_slot(pieces_view(ps@)),
{
    let mut i: usize = 0;
    while i < ps.len()
        invariant
            i <= ps.len(),
            forall|j: int| 0 <= j < i ==> !(pieces_view(ps@)[j] is Slot),
        decreases ps.len() - i,
    {
        if let Piece::Slot(_) = &ps[i] {
            assert(pieces_view(ps@)[i as int] is Slot);
            return true;
        }
        i = i + 1;
    }
    false
}

fn join_pieces(ps: &Vec<Piece>) -> (r: String)
    ensures
        r@ == plain_text(pieces_view(ps@)),
{
    let ghost pv = pieces_view(ps@);
    let mut out = String::new();
    let mut i: usize = 0;
    while i < ps.len()
        invariant
            i <= ps.len(),
            pv == pieces_view(ps@),
            out@ == plain_text(pv.take(i as int)),
        decreases ps.len() - i,
    {
        assert(pv.take(i + 1).drop_last() == pv.take(i as int));
        if let Piece::Text(t) = &ps[i] {
            out.append(t.as_str());
        } else {
            assert(out@ + Seq::<char>::empty() == out@);
        }
        i = i + 1;
    }
    assert(pv.take(ps.len() as int) == pv);
    out
}

fn fill_chunks(ps: &Vec<Piece>, file: &MetaFile, opts: &Options) -> (r: Result<Vec<Chunk>, MetaError>)
    ensures
        r matches Ok(v) ==> fill(file@, *opts, pieces_view(ps@)) == Ok::<Seq<ChunkModel>, ErrorKind>(
            chunks_view(v@),
        ),
        r matches Err(e) ==> fill(file@, *opts, pieces_view(ps@)) == Err::<
            Seq<ChunkModel>,
            ErrorKind,
        >(e.kind()),
{
    let ghost pv = pieces_view(ps@);
    let mut out: Vec<Chunk> = Vec::new();
    let mut i: usize = 0;
    assert(chunks_view(out@) =~= Seq::<ChunkModel>::empty());
    while i < ps.len()
        invariant
            i <= ps.len(),
            pv == pieces_view(ps@),
            fill(file@, *opts, pv.take(i as int)) == Ok::<Seq<ChunkModel>, ErrorKind>(
                chunks_view(out@),
            ),
        decreases ps.len() - i,
    {
        assert(pv.take(i + 1).drop_last() == pv.take(i as int));
        let c = match &ps[i] {
            Piece::Text(t) => Chunk::Text(t.clone()),
            Piece::Slot(k) => match get_array(k.as_str(), file, opts) {
                Ok(v) => Chunk::Items(v),
                Err(e) => {
                    proof {
                        lemma_fill_failed_prefix(file@, *opts, pv, i + 1);
                    }
                    return Err(e);
                },
            },
        };
        let ghost before = out@;
        out.push(c);
        assert(chunks_view(out@) =~= chunks_view(before).push(c@));
        i = i + 1;
    }
    assert(pv.take(ps.len() as int) == pv);
    Ok(out)
}

fn longest(cs: &Vec<Chunk>) -> (r: usize)
    ensures
        r == max_len(chunks_view(cs@)),
{
    let ghost cv = chunks_view(cs@);
    let mut m: usize = 0;
    let mut i: usize = 0;
    while i < cs.len()
        invariant
            i <= cs.len(),
            cv == chunks_view(cs@),
            m == max_len(cv.take(i as int)),
        decreases cs.len() - i,
    {
        assert(cv.take(i + 1).drop_last() == cv.take(i as int));
        if let Chunk::Items(v) = &cs[i] {
            if v.len() > m {
                m = v.len();
            }
        }
        i = i + 1;
    }
    assert(cv.take(cs.len() as int) == cv);
    m
}

fn all_have_len(cs: &Vec<Chunk>, n: usize) -> (r: bool)
    ensures
        r == all_of_len(chunks_view(cs@), n as nat),
{
    let ghost cv = chunks_view(cs@);
    let mut i: usize = 0;
    while i < cs.len()
        invariant
            i <= cs.len(),
            cv == chunks_view(cs@),
            forall|j: int|
                0 <= j < i ==> (#[trigger] cv[j] matches ChunkModel::Items(v) ==> v.len() == n),
        decreases cs.len() - i,
    {
        if let Chunk::Items(v) = &cs[i] {
            if v.len() != n {
                assert(!(cv[i as int] matches ChunkModel::Items(w) ==> w.len() == n));
                return false;
            }
        }
        i = i + 1;
    }
    true
}

/// How many times a body is repeated: the common length of its arrays under
/// the strict policy (unequal lengths are an error), else the longest length.
pub fn get_array_size(cs: &Vec<Chunk>, same_size: bool) -> (r: Result<usize, MetaError>)
    ensures
        r matches Ok(n) ==> broadcast_count(chunks_view(cs@), same_size) == Ok::<nat, ErrorKind>(
            n as nat,
        ),
        r matches Err(e) ==> broadcast_count(chunks_view(cs@), same_size) == Err::<nat, ErrorKind>(
            e.kind(),
        ),
{
    let n = longest(cs);
    if same_size && !all_have_len(cs, n) {
        return Err(MetaError::UnequalArrays { path: String::new() });
    }
    Ok(n)
}

fn push_row(out: &mut String, cs: &Vec<Chunk>, k: usize)
    ensures
        final(out)@ == old(out)@ + row(chunks_view(cs@), k as nat),
{
    let ghost cv = chunks_view(cs@);
    let ghost start = out@;
    let mut i: usize = 0;
    while i < cs.len()
        invariant
            i <= cs.len(),
            cv == chunks_view(cs@),
            out@ == start + row(cv.take(i as int), k as nat),
        decreases cs.len() - i,
    {
        assert(cv.take(i + 1).drop_last() == cv.take(i as int));
        match &cs[i] {
            Chunk::Text(t) => {
                out.append(t.as_str());
            },
            Chunk::Items(v) => {
                if k < v.len() {
                    out.append(v[k].as_str());
                } else {
                    assert(out@ + Seq::<char>::empty() == out@);
                }
            },
        }
        assert(out@ == start + row(cv.take(i + 1), k as nat));
        i = i + 1;
    }
    assert(cv.take(cs.len() as int) == cv);
}

/// Broadcasts the resolved pieces of `file`'s body over the arrays they
/// reference: without arrays the pieces' text; else, for each index up to
/// the count, the body with each array replaced by that index's item.
pub fn expand_arrays(pieces: &Vec<Piece>, file: &MetaFile, opts: &Options) -> (r: Result<
    String,
    MetaError,
>)
    ensures
        text_result(r) == finish(file@, *opts, pieces_view(pieces@)),
{
    if !any_slot(pieces) {
        return Ok(join_pieces(pieces));
    }
    let cs = fill_chunks(pieces, file, opts)?;
    let n = match get_array_size(&cs, file.header.equal_arrays) {
        Ok(n) => n,
        Err(_) => {
            return Err(MetaError::UnequalArrays { path: file.path.clone() });
        },
    };
    let ghost cv = chunks_view(cs@);
    let mut out = String::new();
    let mut k: usize = 0;
    while k < n
        invariant
            k <= n,
            cv == chunks_view(cs@),
            out@ == expansion(cv, k as nat),
        decreases n - k,
    {
        push_row(&mut out, &cs, k);
        k = k + 1;
    }
    Ok(out)
}


/// `d` with `source` registered as the global pattern `SOURCE`.
pub open spec fn with_source(d: DocModel, source: Seq<char>) -> DocModel {
    DocModel { patterns: d.patterns.insert(ScopeName::Global("SOURCE"@), source), ..d }
}

/// The output of `f` once its body has become `source`: the base pattern
/// that `f` names, with `f`'s definitions merged in and `source` as `SOURCE`.
pub open spec fn with_base(
    f: DocModel,
    st: Seq<(Seq<char>, Result<DocModel, ErrorKind>)>,
    o: Options,
    source: Seq<char>,
) -> Result<Seq<char>, ErrorKind> {
    match pattern_file(f, o, "base"@) {
        Err(e) => Err(e),
        Ok(None) => Ok(Seq::empty()),
        Ok(Some(b)) => match store_get(st, pattern_rel_path("base"@, b)) {
            None => Err(ErrorKind::FileNotFound),
            Some(Err(e)) => Err(e),
            Some(Ok(base)) => resolve_doc(
                with_source(merged(base, f), source),
                st,
                o,
                MAX_PATTERN_DEPTH as nat,
            ),
        },
    }
}

/// The output of a source file, without format conversion.
pub open spec fn build_spec(
    f: DocModel,
    st: Seq<(Seq<char>, Result<DocModel, ErrorKind>)>,
    o: Options,
) -> Result<Seq<char>, ErrorKind> {
    if f.header.blank {
        Ok(Seq::empty())
    } else if f.header.ignore || f.header.copy_only {
        Err(ErrorKind::Ignored)
    } else {
        match resolve_doc(f, st, o, MAX_PATTERN_DEPTH as nat) {
            Err(e) => Err(e),
            Ok(s) => with_base(f, st, o, s),
        }
    }
}

/// Wraps the resolved body `source` of `file` in its base pattern.
pub fn render_with_base(file: &MetaFile, source: String, store: &PatternStore, opts: &Options) -> (r:
    Result<String, MetaError>)
    ensures
        text_result(r) == with_base(file@, store@, *opts, source@),
{
    let b = match pattern_filename("base", file, opts)? {
        None => {
            return Ok(String::new());
        },
        Some(b) => b,
    };
    let rel = pattern_path("base", b.as_str());
    match store.get(rel.as_str()) {
        None => {
            let a = concat(opts.pattern.as_str(), "/");
            Err(MetaError::FileNotFound { path: concat(a.as_str(), rel.as_str()) })
        },
        Some(Err(e)) => Err(e.clone_error()),
        Some(Ok(base)) => {
            let mut base = base.duplicate();
            base.merge(file);
            base.patterns.insert(Scope::create_global("SOURCE"), source);
            metafile_to_string(&base, store, opts)
        },
    }
}

/// The output of a source file: empty where its header says `blank`, the
/// skip signal where it says `ignore` or `copy_only`, else its body resolved
/// and wrapped in its base pattern.
pub fn build_metafile(file: &MetaFile, store: &PatternStore, opts: &Options) -> (r: Result<
    String,
    MetaError,
>)
    ensures
        text_result(r) == build_spec(file@, store@, *opts),
{
    if file.header.blank {
        return Ok(String::new());
    }
    if file.header.ignore || file.header.copy_only {
        return Err(MetaError::Ignored);
    }
    let source = metafile_to_string(file, store, opts)?;
    render_with_base(file, source, store, opts)
}

impl MetaFile {
    /// The output of this file's body.
    pub fn get_source(&self, store: &PatternStore, opts: &Options) -> (r: Result<String, MetaError>)
        ensures
            text_result(r) == resolve_doc(self@, store@, *opts, MAX_PATTERN_DEPTH as nat),
    {
        metafile_to_string(self, store, opts)
    }

    /// The output of this file, wrapped in its base pattern.
    pub fn construct(&self, store: &PatternStore, opts: &Options) -> (r: Result<String, MetaError>)
        ensures
            text_result(r) == build_spec(self@, store@, *opts),
    {
        build_metafile(self, store, opts)
    }

    /// Broadcasts the resolved pieces of this file's body over its arrays.
    pub fn expand_arrays(&self, pieces: &Vec<Piece>, opts: &Options) -> (r: Result<String, MetaError>)
        ensures
            text_result(r) == finish(self@, *opts, pieces_view(pieces@)),
    {
        expand_arrays(pieces, self, opts)
    }

    /// The value of the variable `key` as referenced in this file.
    pub fn get_variable(&self, key: &str, opts: &Options) -> (r: Result<String, MetaError>)
        ensures
            text_result(r) == variable_value(self@, *opts, key@),
    {
        get_variable(key, self, opts)
    }

    /// What the pattern `key` resolves to inside this file.
    pub fn get_pattern(&self, key: &str, store: &PatternStore, opts: &Options) -> (r: Result<
        String,
        MetaError,
    >)
        ensures
            text_result(r) == pattern_text(self@, store@, *opts, key@, MAX_PATTERN_DEPTH as nat),
    {
        get_pattern(key, self, store, opts)
    }
}


/// Where a source file stands once its own body is resolved.
#[derive(Debug)]
pub enum Stage {
    /// The file's final output.
    Final(String),
    /// The resolved body, to be converted if need be and wrapped in the base
    /// pattern.
    Body(String),
    /// The body as written, to be copied verbatim.
    Copy(String),
}

/// The first step of building a source file: empty output for `blank`, the
/// skip signal for `ignore`, the verbatim body for `copy_only`, else the
/// resolved body.
pub fn source_stage(file: &MetaFile, store: &PatternStore, opts: &Options) -> (r: Result<
    Stage,
    MetaError,
>)
    ensures
        file.header.blank ==> (r matches Ok(Stage::Final(s)) && s@.len() == 0),
        !file.header.blank && file.header.ignore ==> (r matches Err(e) && e.kind()
            == ErrorKind::Ignored),
        !file.header.blank && !file.header.ignore && file.header.copy_only ==> (r matches Ok(
            Stage::Copy(s),
        ) && s@ == crate::parser::render(file@.source)),
        !file.header.blank && !file.header.ignore && !file.header.copy_only ==> match r {
            Ok(Stage::Body(s)) => resolve_doc(file@, store@, *opts, MAX_PATTERN_DEPTH as nat)
                == Ok::<Seq<char>, ErrorKind>(s@),
            Err(e) => resolve_doc(file@, store@, *opts, MAX_PATTERN_DEPTH as nat) == Err::<
                Seq<char>,
                ErrorKind,
            >(e.kind()),
            _ => false,
        },
{
    if file.header.blank {
        return Ok(Stage::Final(String::new()));
    }
    if file.header.ignore {
        return Err(MetaError::Ignored);
    }
    if file.header.copy_only {
        return Ok(Stage::Copy(file.copy_text()));
    }
    let s = metafile_to_string(file, store, opts)?;
    Ok(Stage::Body(s))
}

} // verus!
