use vstd::prelude::*;

use crate::document::{merged, DocModel, MetaFile};
use crate::error::{ErrorKind, MetaError};
use crate::resolve::text_result;

verus! {

/// One source directory: its path, its default configuration (the parsed
/// `default.meta`, or an empty file), its ordinary files, and the index of
/// its parent directory in the tree.
#[derive(Debug)]
pub struct DirNode {
    pub path: String,
    pub global: MetaFile,
    pub files: Vec<MetaFile>,
    pub parent: Option<usize>,
}

/// A source tree, each directory listed after its parent.
#[derive(Debug)]
pub struct SiteTree {
    pub nodes: Vec<DirNode>,
}

impl SiteTree {
    /// Every directory comes after its parent.
    pub open spec fn wf(&self) -> bool {
        forall|i: int|
            0 <= i < self.nodes@.len() ==> (#[trigger] self.nodes@[i].parent matches Some(p) ==> 0
                <= p < i)
    }

    pub fn new() -> (r: SiteTree)
        ensures
            r.wf(),
            r.nodes@.len() == 0,
    {
        SiteTree { nodes: Vec::new() }
    }

    /// Adds a directory below `parent` (none for the source root), and gives
    /// its index; `None` where `parent` is no directory of the tree.
    pub fn add_dir(&mut self, node: DirNode) -> (r: Option<usize>)
        requires
            old(self).wf(),
        ensures
            final(self).wf(),
            (node.parent matches Some(p) && p >= old(self).nodes@.len()) ==> r is None && final(self).nodes@
                == old(self).nodes@,
            !(node.parent matches Some(p) && p >= old(self).nodes@.len()) ==> (r matches Some(i)
                && i == old(self).nodes@.len()) && final(self).nodes@ == old(self).nodes@.push(node),
    {
        if let Some(p) = node.parent {
            if p >= self.nodes.len() {
                return None;
            }
        }
        let n = self.nodes.len();
        self.nodes.push(node);
        Some(n)
    }
}

/// The configuration that directory `i` passes down: its own default
/// configuration, with what it inherits from its parent (or, for a top
/// directory, from `top`) where it defines nothing itself.
pub open spec fn inherited_global(nodes: Seq<DirNode>, top: DocModel, i: int) -> DocModel
    decreases i,
{
    if i < 0 || i >= nodes.len() {
        top
    } else {
        match nodes[i].parent {
            Some(p) => if 0 <= p < i {
                merged(nodes[i].global@, inherited_global(nodes, top, p as int))
            } else {
                merged(nodes[i].global@, top)
            },
            None => merged(nodes[i].global@, top),
        }
    }
}

impl DirNode {
    /// Merges the configuration inherited from the parent directory into
    /// this directory's own: what this directory defines wins.
    pub fn map(&mut self, global: &MetaFile)
        ensures
            final(self).global@ == merged(old(self).global@, global@),
            final(self).files@ == old(self).files@,
            final(self).path == old(self).path,
            final(self).parent == old(self).parent,
    {
        self.global.merge(global);
    }

    /// Takes in what the parent passes down, and gives this directory's files
    /// with the resulting configuration merged in.
    pub fn build_dir(&mut self, inherited: &MetaFile) -> (r: Vec<MetaFile>)
        ensures
            final(self).global@ == merged(old(self).global@, inherited@),
            r@.len() == old(self).files@.len(),
            forall|i: int|
                0 <= i < r@.len() ==> #[trigger] r@[i]@ == merged(
                    old(self).files@[i]@,
                    final(self).global@,
                ),
    {
        self.map(inherited);
        self.build_files(&self.global)
    }

    /// This directory's files, each with `global` merged in, in order.
    pub fn build_files(&self, global: &MetaFile) -> (r: Vec<MetaFile>)
        ensures
            r@.len() == self.files@.len(),
            forall|i: int| 0 <= i < r@.len() ==> #[trigger] r@[i]@ == merged(self.files@[i]@, global@),
    {
        let mut out: Vec<MetaFile> = Vec::new();
        let mut i: usize = 0;
        while i < self.files.len()
            invariant
                i <= self.files.len(),
                out@.len() == i,
                forall|j: int| 0 <= j < i ==> #[trigger] out@[j]@ == merged(self.files@[j]@, global@),
            decreases self.files.len() - i,
        {
            let mut f = self.files[i].duplicate();
            f.merge(global);
            out.push(f);
            i = i + 1;
        }
        out
    }
}

impl SiteTree {
    /// The configuration that each directory passes down, `top` being what
    /// the source root inherits.
    pub fn globals(&self, top: &MetaFile) -> (r: Vec<MetaFile>)
        requires
            self.wf(),
        ensures
            r@.len() == self.nodes@.len(),
            forall|i: int|
                0 <= i < r@.len() ==> #[trigger] r@[i]@ == inherited_global(self.nodes@, top@, i),
    {
        let mut out: Vec<MetaFile> = Vec::new();
        let mut i: usize = 0;
        while i < self.nodes.len()
            invariant
                self.wf(),
                i <= self.nodes.len(),
                out@.len() == i,
                forall|j: int|
                    0 <= j < i ==> #[trigger] out@[j]@ == inherited_global(self.nodes@, top@, j),
            decreases self.nodes.len() - i,
        {
            let mut g = self.nodes[i].global.duplicate();
            match self.nodes[i].parent {
                Some(p) => {
                    assert(self.nodes@[i as int].parent matches Some(q) ==> 0 <= q < i);
                    g.merge(&out[p]);
                },
                None => {
                    g.merge(top);
                },
            }
            out.push(g);
            i = i + 1;
        }
        out
    }

    /// Every file of the tree with the configuration of its directory merged
    /// in: directory by directory in tree order, and within a directory in
    /// the order of its files.
    pub fn build_all(&self, top: &MetaFile) -> (r: Vec<Vec<MetaFile>>)
        requires
            self.wf(),
        ensures
            r@.len() == self.nodes@.len(),
            forall|i: int|
                0 <= i < r@.len() ==> (#[trigger] r@[i])@.len() == self.nodes@[i].files@.len(),
            forall|i: int, j: int|
                0 <= i < r@.len() && 0 <= j < r@[i]@.len() ==> (#[trigger] r@[i]@[j])@ == merged(
                    self.nodes@[i].files@[j]@,
                    inherited_global(self.nodes@, top@, i),
                ),
    {
        let gs = self.globals(top);
        let mut out: Vec<Vec<MetaFile>> = Vec::new();
        let mut i: usize = 0;
        while i < self.nodes.len()
            invariant
                i <= self.nodes.len(),
                gs@.len() == self.nodes@.len(),
                forall|k: int|
                    0 <= k < gs@.len() ==> #[trigger] gs@[k]@ == inherited_global(self.nodes@, top@, k),
                out@.len() == i,
                forall|k: int|
                    0 <= k < i ==> (#[trigger] out@[k])@.len() == self.nodes@[k].files@.len(),
                forall|k: int, j: int|
                    0 <= k < i && 0 <= j < out@[k]@.len() ==> (#[trigger] out@[k]@[j])@ == merged(
                        self.nodes@[k].files@[j]@,
                        inherited_global(self.nodes@, top@, k),
                    ),
            decreases self.nodes.len() - i,
        {
            let fs = self.nodes[i].build_files(&gs[i]);
            out.push(fs);
            i = i + 1;
        }
        out
    }
}

/// What a directory entry is to a build.
#[derive(Debug, Clone, Copy, PartialEq, Eq, Structural)]
pub enum EntryKind {
    /// A subdirectory.
    Dir,
    /// The directory's default configuration, `default.meta`.
    Default,
    /// An ordinary file to build, with the extension `meta`.
    Meta,
    /// Anything else, which the build passes over.
    Other,
}

pub open spec fn entry_kind(name: Seq<char>, is_dir: bool) -> EntryKind {
    if is_dir {
        EntryKind::Dir
    } else if name == "default.meta"@ {
        EntryKind::Default
    } else if crate::text::last_dot(name) > 0 && name.skip(crate::text::last_dot(name) + 1)
        == "meta"@ {
        EntryKind::Meta
    } else {
        EntryKind::Other
    }
}

pub fn classify_entry(name: &str, is_dir: bool) -> (r: EntryKind)
    ensures
        r == entry_kind(name@, is_dir),
{
    if is_dir {
        return EntryKind::Dir;
    }
    if crate::text::same_text(name, "default.meta") {
        return EntryKind::Default;
    }
    let stem = crate::text::file_stem(name);
    let n = name.unicode_len();
    let m = stem.as_str().unicode_len();
    proof {
        crate::text::lemma_last_dot(name@);
    }
    if m < n {
        let ext = name.substring_char(m + 1, n);
        assert(ext@ == name@.skip(crate::text::last_dot(name@) + 1));
        if crate::text::same_text(ext, "meta") {
            return EntryKind::Meta;
        }
    }
    EntryKind::Other
}

/// What becomes of one file's result.
#[derive(Debug, Clone, Copy, PartialEq, Eq, Structural)]
pub enum Decision {
    Write,
    Skip,
    Report,
    Abort,
}

/// A file's result decides: its output is written; the skip signal
/// produces nothing; a syntax error ends the build; any other failure is
/// reported in force mode and ends the build otherwise.
pub open spec fn decision(r: Result<Seq<char>, ErrorKind>, force: bool) -> Decision {
    match r {
        Ok(_) => Decision::Write,
        Err(ErrorKind::Ignored) => Decision::Skip,
        Err(ErrorKind::ParserError) => Decision::Abort,
        Err(_) => if force {
            Decision::Report
        } else {
            Decision::Abort
        },
    }
}

pub fn decide(r: &Result<String, MetaError>, force: bool) -> (d: Decision)
    ensures
        d == decision(text_result(*r), force),
{
    match r {
        Ok(_) => Decision::Write,
        Err(e) => {
            if e.is_ignored() {
                Decision::Skip
            } else if e.error_kind() == ErrorKind::ParserError {
                Decision::Abort
            } else if force {
                Decision::Report
            } else {
                Decision::Abort
            }
        },
    }
}

pub open spec fn results_view(v: Seq<Result<String, MetaError>>) -> Seq<Result<Seq<char>, ErrorKind>> {
    v.map_values(|r: Result<String, MetaError>| text_result(r))
}

/// The index of the first result that ends the build, if any: the policy
/// applied once to the results of a directory's files, however they were
/// computed.
pub fn settle(results: &Vec<Result<String, MetaError>>, force: bool) -> (r: Option<usize>)
    ensures
        r matches Some(i) ==> i < results@.len() && decision(
            results_view(results@)[i as int],
            force,
        ) == Decision::Abort && forall|j: int|
            0 <= j < i ==> decision(#[trigger] results_view(results@)[j], force) != Decision::Abort,
        r is None ==> forall|j: int|
            0 <= j < results@.len() ==> decision(#[trigger] results_view(results@)[j], force)
                != Decision::Abort,
{
    let mut i: usize = 0;
    while i < results.len()
        invariant
            i <= results.len(),
            forall|j: int|
                0 <= j < i ==> decision(#[trigger] results_view(results@)[j], force)
                    != Decision::Abort,
        decreases results.len() - i,
    {
        if decide(&results[i], force) == Decision::Abort {
            return Some(i);
        }
        i = i + 1;
    }
    None
}

/// In force mode only a syntax error ends the build.
pub proof fn law_force_aborts_only_on_syntax_errors(r: Result<Seq<char>, ErrorKind>)
    ensures
        decision(r, true) == Decision::Abort <==> r == Err::<Seq<char>, ErrorKind>(
            ErrorKind::ParserError,
        ),
{
}

} // verus!
