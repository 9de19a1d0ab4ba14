use vstd::prelude::*;

use crate::error::MetaError;
use crate::header::Header;
use crate::scope::{inherit, strings_view, ArrMap, Scope, ScopeName, VarMap};
use crate::text::{components, concat, file_stem, join, join_with, owned, path_components, stem};

verus! {

/// One piece of a body, in the mathematical form.
pub enum Segment {
    Text(Seq<char>),
    Var(Seq<char>),
    Arr(Seq<char>),
    Pat(Seq<char>),
}

/// One piece of a body: literal text, or a reference to a variable, an
/// array or a pattern by its key.
#[derive(Debug, Clone)]
pub enum Src {
    Str(String),
    Var(String),
    Arr(String),
    Pat(String),
}

impl View for Src {
    type V = Segment;

    open spec fn view(&self) -> Segment {
        match self {
            Src::Str(s) => Segment::Text(s@),
            Src::Var(s) => Segment::Var(s@),
            Src::Arr(s) => Segment::Arr(s@),
            Src::Pat(s) => Segment::Pat(s@),
        }
    }
}

pub open spec fn segments_view(v: Seq<Src>) -> Seq<Segment> {
    v.map_values(|s: Src| s@)
}

impl Src {
    pub fn to_var(var: &str) -> (r: Src)
        ensures
            r@ == Segment::Var(var@),
    {
        Src::Var(owned(var))
    }

    pub fn to_arr(arr: &str) -> (r: Src)
        ensures
            r@ == Segment::Arr(arr@),
    {
        Src::Arr(owned(arr))
    }

    pub fn to_pat(pat: &str) -> (r: Src)
        ensures
            r@ == Segment::Pat(pat@),
    {
        Src::Pat(owned(pat))
    }

    pub fn to_str(s: &str) -> (r: Src)
        ensures
            r@ == Segment::Text(s@),
    {
        Src::Str(owned(s))
    }

    pub fn duplicate(&self) -> (r: Src)
        ensures
            r@ == self@,
    {
        match self {
            Src::Str(s) => Src::Str(s.clone()),
            Src::Var(s) => Src::Var(s.clone()),
            Src::Arr(s) => Src::Arr(s.clone()),
            Src::Pat(s) => Src::Pat(s.clone()),
        }
    }

    /// The text of this piece: a literal as it stands, a reference as its key.
    pub fn text(&self) -> (r: &String)
        ensures
            r@ == segment_key(self@),
    {
        match self {
            Src::Str(s) => s,
            Src::Var(s) => s,
            Src::Arr(s) => s,
            Src::Pat(s) => s,
        }
    }
}

pub open spec fn segment_key(s: Segment) -> Seq<char> {
    match s {
        Segment::Text(t) => t,
        Segment::Var(t) => t,
        Segment::Arr(t) => t,
        Segment::Pat(t) => t,
    }
}

/// The settings of a build: where things are and how to treat failures.
#[derive(Debug, Clone)]
pub struct Options {
    pub root: String,
    pub source: String,
    pub build: String,
    pub pattern: String,
    pub file: Option<String>,
    pub input: String,
    pub output: String,
    pub verbose: u8,
    pub parallel: bool,
    pub quiet: bool,
    pub force: bool,
    pub undefined: bool,
    pub clean: bool,
    pub no_pandoc: bool,
    pub new: bool,
    pub minify: bool,
}

impl Options {
    pub fn new() -> (r: Options)
        ensures
            r.root@.len() == 0,
            r.source@.len() == 0,
            r.build@.len() == 0,
            r.pattern@.len() == 0,
            r.file is None,
            r.input@.len() == 0,
            r.output@.len() == 0,
            r.verbose == 0,
            !r.parallel && !r.quiet && !r.force && !r.undefined && !r.clean && !r.no_pandoc
                && !r.new && !r.minify,
    {
        Options {
            root: String::new(),
            source: String::new(),
            build: String::new(),
            pattern: String::new(),
            file: None,
            input: String::new(),
            output: String::new(),
            verbose: 0,
            parallel: false,
            quiet: false,
            force: false,
            undefined: false,
            clean: false,
            no_pandoc: false,
            new: false,
            minify: false,
        }
    }
}

/// `dir/name`
pub open spec fn joined(dir: Seq<char>, name: Seq<char>) -> Seq<char> {
    dir.push('/') + name
}

pub fn join_dir(dir: &str, name: &str) -> (r: String)
    ensures
        r@ == joined(dir@, name@),
{
    proof {
        reveal_strlit("/");
        assert("/"@ =~= seq!['/']);
    }
    let a = concat(dir, "/");
    concat(a.as_str(), name)
}

fn given_or(v: &Option<String>, default: String) -> (r: String)
    ensures
        r@ == match v {
            Some(s) => s@,
            None => default@,
        },
{
    match v {
        Some(s) => s.clone(),
        None => default,
    }
}

impl Options {
    /// The settings of a build from those given on the command line: a
    /// directory not given lies in the root (`source`, `build`, `pattern`),
    /// the root is `current_dir` where it is not given, the input dialect is
    /// `html` and the output dialect `markdown` where they are not given.
    /// Paths that were given are taken as they stand.
    pub fn from_opts(value: &Opts, current_dir: &str) -> (r: Options)
        ensures
            r.root@ == match value.root {
                Some(s) => s@,
                None => current_dir@,
            },
            r.source@ == match value.source {
                Some(s) => s@,
                None => joined(r.root@, "source"@),
            },
            r.build@ == match value.build {
                Some(s) => s@,
                None => joined(r.root@, "build"@),
            },
            r.pattern@ == match value.pattern {
                Some(s) => s@,
                None => joined(r.root@, "pattern"@),
            },
            r.file == value.file,
            r.input@ == match value.input {
                Some(s) => s@,
                None => "html"@,
            },
            r.output@ == match value.output {
                Some(s) => s@,
                None => "markdown"@,
            },
            r.verbose == value.verbose,
            r.quiet == value.quiet,
            r.parallel == value.parallel,
            r.new == value.new,
            r.clean == value.clean,
            r.force == value.force,
            r.undefined == value.undefined,
            r.no_pandoc == value.no_pandoc,
            r.minify == value.minify,
    {
        let root = given_or(&value.root, owned(current_dir));
        let source = given_or(&value.source, join_dir(root.as_str(), "source"));
        let build = given_or(&value.build, join_dir(root.as_str(), "build"));
        let pattern = given_or(&value.pattern, join_dir(root.as_str(), "pattern"));
        let file = match &value.file {
            Some(f) => Some(f.clone()),
            None => None,
        };
        Options {
            root,
            source,
            build,
            pattern,
            file,
            input: given_or(&value.input, owned("html")),
            output: given_or(&value.output, owned("markdown")),
            verbose: value.verbose,
            parallel: value.parallel,
            quiet: value.quiet,
            force: value.force,
            undefined: value.undefined,
            clean: value.clean,
            no_pandoc: value.no_pandoc,
            new: value.new,
            minify: value.minify,
        }
    }
}

/// The command-line settings as given, before defaults are filled in.
#[derive(Debug, Clone)]
pub struct Opts {
    pub root: Option<String>,
    pub source: Option<String>,
    pub build: Option<String>,
    pub pattern: Option<String>,
    pub file: Option<String>,
    pub output: Option<String>,
    pub input: Option<String>,
    pub verbose: u8,
    pub quiet: bool,
    pub parallel: bool,
    pub new: bool,
    pub clean: bool,
    pub force: bool,
    pub undefined: bool,
    pub no_pandoc: bool,
    pub minify: bool,
}

/// The four directories of a site.
#[derive(Debug, Clone)]
pub struct RootDirs {
    pub root: String,
    pub source: String,
    pub build: String,
    pub pattern: String,
}

impl RootDirs {
    pub fn new() -> (r: RootDirs)
        ensures
            r.root@.len() == 0,
            r.source@.len() == 0,
            r.build@.len() == 0,
            r.pattern@.len() == 0,
    {
        RootDirs {
            root: String::new(),
            source: String::new(),
            build: String::new(),
            pattern: String::new(),
        }
    }
}

/// A parsed file in the mathematical form.
pub struct DocModel {
    pub path: Seq<char>,
    pub header: Header,
    pub variables: Map<ScopeName, Seq<char>>,
    pub arrays: Map<ScopeName, Seq<Seq<char>>>,
    pub patterns: Map<ScopeName, Seq<char>>,
    pub source: Seq<Segment>,
}

/// A parsed file: its path, header, definitions and body.
#[derive(Debug, Clone)]
pub struct MetaFile {
    pub path: String,
    pub header: Header,
    pub variables: VarMap,
    pub arrays: ArrMap,
    pub patterns: VarMap,
    pub source: Vec<Src>,
}

impl View for MetaFile {
    type V = DocModel;

    open spec fn view(&self) -> DocModel {
        DocModel {
            path: self.path@,
            header: self.header,
            variables: self.variables@,
            arrays: self.arrays@,
            patterns: self.patterns@,
            source: segments_view(self.source@),
        }
    }
}

/// `doc` with the global definitions of `from` added where `doc` has none.
pub open spec fn merged(doc: DocModel, from: DocModel) -> DocModel {
    DocModel {
        variables: inherit(doc.variables, from.variables),
        arrays: inherit(doc.arrays, from.arrays),
        patterns: inherit(doc.patterns, from.patterns),
        ..doc
    }
}

/// The parts of `p` after the parts of `root`, where `root` begins `p`.
pub open spec fn relative_to(p: Seq<Seq<char>>, root: Seq<Seq<char>>) -> Option<Seq<Seq<char>>> {
    if root.len() <= p.len() && p.take(root.len() as int) == root {
        Some(p.skip(root.len() as int))
    } else {
        None
    }
}

/// A relative path as a dotted name, without the file's extension.
pub open spec fn dotted(rel: Seq<Seq<char>>) -> Seq<char> {
    if rel.len() == 0 {
        Seq::empty()
    } else {
        join(rel.update(rel.len() - 1, stem(rel.last())), '.')
    }
}

/// The dotted name of a file: its path relative to the pattern root, or else
/// to the source root.
pub open spec fn doc_name(path: Seq<char>, o: Options) -> Option<Seq<char>> {
    match relative_to(components(path), components(o.pattern@)) {
        Some(rel) => Some(dotted(rel)),
        None => match relative_to(components(path), components(o.source@)) {
            Some(rel) => Some(dotted(rel)),
            None => None,
        },
    }
}

/// The dotted name of the directory of a pattern file.
pub open spec fn doc_class(path: Seq<char>, o: Options) -> Option<Seq<char>> {
    match relative_to(components(path), components(o.pattern@)) {
        Some(rel) => if rel.len() == 0 {
            None
        } else {
            Some(join(rel.drop_last(), '.'))
        },
        None => None,
    }
}

/// A file name with its extension replaced by `ext`.
pub open spec fn with_extension(c: Seq<char>, ext: Seq<char>) -> Seq<char> {
    if ext.len() == 0 {
        stem(c)
    } else {
        stem(c).push('.') + ext
    }
}

/// Where the output of a source file goes: the build root, followed by the
/// file's path relative to the source root, with the extension `ext`.
pub open spec fn dest_path(path: Seq<char>, o: Options, ext: Seq<char>) -> Option<Seq<char>> {
    match relative_to(components(path), components(o.source@)) {
        Some(rel) => if rel.len() == 0 {
            None
        } else {
            let tail = join(rel.update(rel.len() - 1, with_extension(rel.last(), ext)), '/');
            if o.build@.len() == 0 {
                Some(tail)
            } else {
                Some(o.build@.push('/') + tail)
            }
        },
        None => None,
    }
}

fn strip_root(p: &Vec<String>, root: &Vec<String>) -> (r: Option<Vec<String>>)
    ensures
        r matches Some(v) ==> relative_to(strings_view(p@), strings_view(root@)) == Some(
            strings_view(v@),
        ),
        r is None ==> relative_to(strings_view(p@), strings_view(root@)) is None,
{
    let ghost ps = strings_view(p@);
    let ghost rs = strings_view(root@);
    if root.len() > p.len() {
        return None;
    }
    let mut i: usize = 0;
    while i < root.len()
        invariant
            root.len() <= p.len(),
            i <= root.len(),
            ps == strings_view(p@),
            rs == strings_view(root@),
            forall|j: int| 0 <= j < i ==> ps[j] == rs[j],
        decreases root.len() - i,
    {
        if !p[i].eq(&root[i]) {
            assert(ps.take(root.len() as int)[i as int] != rs[i as int]);
            return None;
        }
        i = i + 1;
    }
    assert(ps.take(root.len() as int) =~= rs);
    let mut out: Vec<String> = Vec::new();
    let mut k: usize = root.len();
    while k < p.len()
        invariant
            root.len() <= k <= p.len(),
            ps == strings_view(p@),
            strings_view(out@) == ps.subrange(root.len() as int, k as int),
        decreases p.len() - k,
    {
        let ghost before = out@;
        out.push(p[k].clone());
        assert(strings_view(out@) =~= strings_view(before).push(ps[k as int]));
        assert(ps.subrange(root.len() as int, k + 1) =~= ps.subrange(root.len() as int, k as int).push(ps[k as int]));
        k = k + 1;
    }
    Some(out)
}

/// Replaces the last part by `last`.
fn replace_last(v: &mut Vec<String>, last: String)
    requires
        old(v).len() > 0,
    ensures
        strings_view(final(v)@) == strings_view(old(v)@).update(old(v).len() - 1, last@),
{
    let n = v.len();
    let ghost before = strings_view(v@);
    v.set(n - 1, last);
    assert(strings_view(v@) =~= before.update(n - 1, last@));
}

fn dotted_name(rel: Vec<String>) -> (r: String)
    ensures
        r@ == dotted(strings_view(rel@)),
{
    let mut rel = rel;
    if rel.len() == 0 {
        return String::new();
    }
    let n = rel.len();
    let s = file_stem(rel[n - 1].as_str());
    replace_last(&mut rel, s);
    proof {
        reveal_strlit(".");
    }
    join_with(&rel, '.', ".")
}

impl MetaFile {
    pub fn new() -> (r: MetaFile)
        ensures
            r@.path.len() == 0,
            crate::header::default_header(r@.header),
            r@.variables == Map::<ScopeName, Seq<char>>::empty(),
            r@.arrays == Map::<ScopeName, Seq<Seq<char>>>::empty(),
            r@.patterns == Map::<ScopeName, Seq<char>>::empty(),
            r@.source.len() == 0,
    {
        let r = MetaFile {
            path: String::new(),
            header: Header::new(),
            variables: VarMap::new(),
            arrays: ArrMap::new(),
            patterns: VarMap::new(),
            source: Vec::new(),
        };
        assert(segments_view(r.source@) =~= Seq::<Segment>::empty());
        r
    }

    /// A copy of this file.
    pub fn duplicate(&self) -> (r: MetaFile)
        ensures
            r@ == self@,
    {
        let mut source: Vec<Src> = Vec::new();
        let mut i: usize = 0;
        while i < self.source.len()
            invariant
                i <= self.source.len(),
                source@.len() == i,
                forall|j: int| 0 <= j < i ==> source@[j]@ == self.source@[j]@,
            decreases self.source.len() - i,
        {
            source.push(self.source[i].duplicate());
            i = i + 1;
        }
        assert(segments_view(source@) =~= segments_view(self.source@));
        MetaFile {
            path: self.path.clone(),
            header: self.header.duplicate(),
            variables: self.variables.duplicate(),
            arrays: self.arrays.duplicate(),
            patterns: self.patterns.duplicate(),
            source,
        }
    }

    /// Adds the global definitions of `other` that this file does not define itself.
    pub fn merge(&mut self, other: &MetaFile)
        ensures
            final(self)@ == merged(old(self)@, other@),
    {
        self.variables.merge(&other.variables);
        self.arrays.merge(&other.arrays);
        self.patterns.merge(&other.patterns);
    }

    pub fn get_var(&self, key: &Scope) -> (r: Option<&String>)
        ensures
            r matches Some(v) ==> self@.variables.contains_key(key@) && self@.variables[key@]
                == v@,
            r is None ==> !self@.variables.contains_key(key@),
    {
        self.variables.get(key)
    }

    pub fn get_arr(&self, key: &Scope) -> (r: Option<&Vec<String>>)
        ensures
            r matches Some(v) ==> self@.arrays.contains_key(key@) && self@.arrays[key@]
                == strings_view(v@),
            r is None ==> !self@.arrays.contains_key(key@),
    {
        self.arrays.get(key)
    }

    pub fn get_pat(&self, key: &Scope) -> (r: Option<&String>)
        ensures
            r matches Some(v) ==> self@.patterns.contains_key(key@) && self@.patterns[key@]
                == v@,
            r is None ==> !self@.patterns.contains_key(key@),
    {
        self.patterns.get(key)
    }

    /// The dotted name of this file, from its path relative to its root.
    pub fn name(&self, opts: &Options) -> (r: Result<String, MetaError>)
        ensures
            r matches Ok(n) ==> doc_name(self@.path, *opts) == Some(n@),
            r is Err ==> doc_name(self@.path, *opts) is None,
            r matches Err(e) ==> e.kind() == crate::error::ErrorKind::Name,
    {
        let p = path_components(self.path.as_str());
        let pat = path_components(opts.pattern.as_str());
        match strip_root(&p, &pat) {
            Some(rel) => Ok(dotted_name(rel)),
            None => {
                let src = path_components(opts.source.as_str());
                match strip_root(&p, &src) {
                    Some(rel) => Ok(dotted_name(rel)),
                    None => Err(MetaError::Name { file: self.path.clone() }),
                }
            },
        }
    }

    /// The dotted name of the directory that holds this pattern file.
    pub fn class(&self, opts: &Options) -> (r: Result<String, MetaError>)
        ensures
            r matches Ok(n) ==> doc_class(self@.path, *opts) == Some(n@),
            r is Err ==> doc_class(self@.path, *opts) is None,
    {
        let p = path_components(self.path.as_str());
        let pat = path_components(opts.pattern.as_str());
        match strip_root(&p, &pat) {
            Some(rel) => {
                if rel.len() == 0 {
                    return Err(MetaError::Name { file: self.path.clone() });
                }
                let mut rel = rel;
                let ghost before = strings_view(rel@);
                rel.pop();
                assert(strings_view(rel@) =~= before.drop_last());
                proof {
                    reveal_strlit(".");
                }
                Ok(join_with(&rel, '.', "."))
            },
            None => Err(MetaError::Name { file: self.path.clone() }),
        }
    }

    /// Where the output of this file is written.
    pub fn dest(&self, opts: &Options) -> (r: Result<String, MetaError>)
        ensures
            r matches Ok(d) ==> dest_path(self@.path, *opts, self.header.filetype@) == Some(d@),
            r is Err ==> dest_path(self@.path, *opts, self.header.filetype@) is None,
    {
        proof {
            reveal_strlit(".");
            reveal_strlit("/");
            assert("."@ =~= seq!['.']);
            assert("/"@ =~= seq!['/']);
        }
        let p = path_components(self.path.as_str());
        let src = path_components(opts.source.as_str());
        match strip_root(&p, &src) {
            Some(rel) => {
                if rel.len() == 0 {
                    return Err(MetaError::Name { file: self.path.clone() });
                }
                let mut rel = rel;
                let n = rel.len();
                let s = file_stem(rel[n - 1].as_str());
                let last = if self.header.filetype.as_str().unicode_len() == 0 {
                    s
                } else {
                    let a = concat(s.as_str(), ".");
                    assert(a@ =~= s@.push('.'));
                    concat(a.as_str(), self.header.filetype.as_str())
                };
                replace_last(&mut rel, last);
                let tail = join_with(&rel, '/', "/");
                if opts.build.as_str().unicode_len() == 0 {
                    Ok(tail)
                } else {
                    let a = concat(opts.build.as_str(), "/");
                    assert(a@ =~= opts.build@.push('/'));
                    Ok(concat(a.as_str(), tail.as_str()))
                }
            },
            None => Err(MetaError::Name { file: self.path.clone() }),
        }
    }
}

} // verus!
