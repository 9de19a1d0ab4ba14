use vstd::prelude::*;

use crate::document::{doc_name, merged, DocModel, Options};
use crate::error::ErrorKind;
use crate::resolve::{
    broadcast_count, build_spec, expansion, lookup_chain, max_len, pattern_file, pattern_text,
    qualified, resolve_doc, row, variable_value, ChunkModel,
};
use crate::scope::ScopeName;

verus! {

/// A file whose header says `blank` yields empty output, whatever its body.
pub proof fn law_blank_yields_empty(
    d: DocModel,
    st: Seq<(Seq<char>, Result<DocModel, ErrorKind>)>,
    o: Options,
    fuel: nat,
)
    requires
        d.header.blank,
    ensures
        resolve_doc(d, st, o, fuel) == Ok::<Seq<char>, ErrorKind>(Seq::empty()),
        build_spec(d, st, o) == Ok::<Seq<char>, ErrorKind>(Seq::empty()),
{
}

/// A file whose header says `ignore` (and not `blank`, which comes first)
/// yields the skip signal.
pub proof fn law_ignore_yields_skip(
    d: DocModel,
    st: Seq<(Seq<char>, Result<DocModel, ErrorKind>)>,
    o: Options,
    fuel: nat,
)
    requires
        d.header.ignore,
        !d.header.blank,
    ensures
        resolve_doc(d, st, o, fuel) == Err::<Seq<char>, ErrorKind>(ErrorKind::Ignored),
        build_spec(d, st, o) == Err::<Seq<char>, ErrorKind>(ErrorKind::Ignored),
{
}

/// A variable defined locally under the file's own dotted name wins over the
/// same bare key defined globally.
pub proof fn law_local_qualified_wins(d: DocModel, o: Options, name: Seq<char>, key: Seq<char>)
    requires
        doc_name(d.path, o) == Some(name),
        d.variables.contains_key(ScopeName::Local(qualified(name, key))),
        d.variables.contains_key(ScopeName::Global(key)),
    ensures
        variable_value(d, o, key) == Ok::<Seq<char>, ErrorKind>(
            if d.variables[ScopeName::Local(qualified(name, key))] == "BLANK"@ {
                Seq::empty()
            } else {
                d.variables[ScopeName::Local(qualified(name, key))]
            },
        ),
{
}

/// Without the strict policy, arrays of two and three items broadcast to
/// three rows; the shorter array gives nothing in the last.
pub proof fn law_broadcast_longest(x: Seq<Seq<char>>, y: Seq<Seq<char>>)
    requires
        x.len() == 2,
        y.len() == 3,
    ensures
        ({
            let cs = seq![ChunkModel::Items(x), ChunkModel::Items(y)];
            &&& broadcast_count(cs, false) == Ok::<nat, ErrorKind>(3)
            &&& expansion(cs, 3) == x[0] + y[0] + x[1] + y[1] + y[2]
        }),
{
    let cs = seq![ChunkModel::Items(x), ChunkModel::Items(y)];
    let c1 = seq![ChunkModel::Items(x)];
    let c0 = Seq::<ChunkModel>::empty();
    assert(cs.drop_last() =~= c1);
    assert(c1.drop_last() =~= c0);
    assert(cs.last() == ChunkModel::Items(y));
    assert(c1.last() == ChunkModel::Items(x));
    assert(max_len(c0) == 0);
    assert(max_len(c1) == 2);
    assert(max_len(cs) == 3);
    assert(row(c0, 0) == Seq::<char>::empty());
    assert(row(c0, 1) == Seq::<char>::empty());
    assert(row(c0, 2) == Seq::<char>::empty());
    assert(row(c1, 2) =~= Seq::<char>::empty());
    assert(row(c1, 0) =~= x[0]);
    assert(row(c1, 1) =~= x[1]);
    assert(row(cs, 2) =~= y[2]);
    assert(row(cs, 0) =~= x[0] + y[0]);
    assert(row(cs, 1) =~= x[1] + y[1]);
    assert(expansion(cs, 0) == Seq::<char>::empty());
    assert(expansion(cs, 1) =~= x[0] + y[0]);
    assert(expansion(cs, 2) =~= x[0] + y[0] + x[1] + y[1]);
    assert(expansion(cs, 3) =~= x[0] + y[0] + x[1] + y[1] + y[2]);
}

/// Under the strict policy, arrays of two and three items are an error.
pub proof fn law_broadcast_strict(x: Seq<Seq<char>>, y: Seq<Seq<char>>)
    requires
        x.len() == 2,
        y.len() == 3,
    ensures
        broadcast_count(seq![ChunkModel::Items(x), ChunkModel::Items(y)], true) == Err::<
            nat,
            ErrorKind,
        >(ErrorKind::UnequalArrays),
{
    let cs = seq![ChunkModel::Items(x), ChunkModel::Items(y)];
    let c1 = seq![ChunkModel::Items(x)];
    let c0 = Seq::<ChunkModel>::empty();
    assert(cs.drop_last() =~= c1);
    assert(c1.drop_last() =~= c0);
    assert(cs.last() == ChunkModel::Items(y));
    assert(c1.last() == ChunkModel::Items(x));
    assert(max_len(c0) == 0);
    assert(max_len(c1) == 2);
    assert(max_len(cs) == 3);
    assert(cs[0] matches ChunkModel::Items(v) && v.len() != 3);
}

/// A pattern set to `BLANK` resolves to nothing, whatever the store of
/// pattern files holds.
pub proof fn law_blank_pattern(
    d: DocModel,
    st: Seq<(Seq<char>, Result<DocModel, ErrorKind>)>,
    o: Options,
    key: Seq<char>,
    fuel: nat,
    name: Seq<char>,
)
    requires
        key != "SOURCE"@,
        doc_name(d.path, o) == Some(name),
        lookup_chain(d.patterns, name, key) == Some("BLANK"@),
    ensures
        pattern_text(d, st, o, key, fuel) == Ok::<Seq<char>, ErrorKind>(Seq::empty()),
{
}

/// A pattern set to `DEFAULT` in the file names the default pattern, even
/// where a global setting names another.
pub proof fn law_default_pattern(d: DocModel, o: Options, key: Seq<char>, name: Seq<char>, other: Seq<char>)
    requires
        doc_name(d.path, o) == Some(name),
        d.patterns.contains_key(ScopeName::Local(key)),
        d.patterns[ScopeName::Local(key)] == "DEFAULT"@,
        d.patterns.contains_key(ScopeName::Global(key)),
        d.patterns[ScopeName::Global(key)] == other,
        !d.patterns.contains_key(ScopeName::Local(qualified(name, key))),
        !d.patterns.contains_key(ScopeName::Global(qualified(name, key))),
    ensures
        pattern_file(d, o, key) == Ok::<Option<Seq<char>>, ErrorKind>(Some("default"@)),
{
    reveal_strlit("DEFAULT");
    reveal_strlit("BLANK");
    assert("DEFAULT"@ != "BLANK"@) by {
        assert("DEFAULT"@.len() != "BLANK"@.len());
    }
}

/// Inheritance from a parent directory: what the child defines wins, the
/// parent's global definitions pass through where the child has none, and the
/// parent's local definitions never reach the child.
pub proof fn law_directory_inheritance(child: DocModel, parent: DocModel, k: ScopeName)
    ensures
        child.variables.contains_key(k) ==> merged(child, parent).variables[k]
            == child.variables[k],
        !child.variables.contains_key(k) && k is Global && parent.variables.contains_key(k)
            ==> merged(child, parent).variables[k] == parent.variables[k],
        merged(child, parent).variables.contains_key(k) <==> (child.variables.contains_key(k) || (
        k is Global && parent.variables.contains_key(k))),
        merged(child, parent).arrays.contains_key(k) <==> (child.arrays.contains_key(k) || (
        k is Global && parent.arrays.contains_key(k))),
        merged(child, parent).patterns.contains_key(k) <==> (child.patterns.contains_key(k) || (
        k is Global && parent.patterns.contains_key(k))),
        child.arrays.contains_key(k) ==> merged(child, parent).arrays[k] == child.arrays[k],
        child.patterns.contains_key(k) ==> merged(child, parent).patterns[k]
            == child.patterns[k],
{
}

/// A file that does not define a variable sees the value that the global
/// configuration of its directory gives it.
pub proof fn law_inherited_variable(
    f: DocModel,
    g: DocModel,
    o: Options,
    name: Seq<char>,
    key: Seq<char>,
)
    requires
        doc_name(f.path, o) == Some(name),
        !f.variables.contains_key(ScopeName::Local(qualified(name, key))),
        !f.variables.contains_key(ScopeName::Global(qualified(name, key))),
        !f.variables.contains_key(ScopeName::Local(key)),
        !f.variables.contains_key(ScopeName::Global(key)),
        !g.variables.contains_key(ScopeName::Global(qualified(name, key))),
        g.variables.contains_key(ScopeName::Global(key)),
        g.variables[ScopeName::Global(key)] != "BLANK"@,
    ensures
        variable_value(merged(f, g), o, key) == Ok::<Seq<char>, ErrorKind>(
            g.variables[ScopeName::Global(key)],
        ),
{
}

} // verus!
