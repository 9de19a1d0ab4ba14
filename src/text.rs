use vstd::prelude::*;

verus! {

/// The characters of `s`, in order.
pub fn to_chars(s: &str) -> (r: Vec<char>)
    ensures
        r@ == s@,
{
    let mut v: Vec<char> = Vec::new();
    for c in it: s.chars()
        invariant
            v@ == it.seq().take(it.index() as int),
            it.seq() == s@,
    {
        v.push(c);
    }
    v
}

/// Whether two texts are the same.
pub fn same_text(a: &str, b: &str) -> (r: bool)
    ensures
        r == (a@ == b@),
{
    let x = to_chars(a);
    let y = to_chars(b);
    if x.len() != y.len() {
        return false;
    }
    let mut i: usize = 0;
    while i < x.len()
        invariant
            x@ == a@,
            y@ == b@,
            x.len() == y.len(),
            i <= x.len(),
            forall|j: int| 0 <= j < i ==> x@[j] == y@[j],
        decreases x.len() - i,
    {
        if x[i] != y[i] {
            return false;
        }
        i = i + 1;
    }
    assert(x@ =~= y@);
    true
}

/// A new string holding `s`.
pub fn owned(s: &str) -> (r: String)
    ensures
        r@ == s@,
{
    String::from_str(s)
}

/// `a` followed by `b`.
pub fn concat(a: &str, b: &str) -> (r: String)
    ensures
        r@ == a@ + b@,
{
    let mut r = String::from_str(a);
    r.append(b);
    r
}

/// The first index at or after `i` that holds `c`, or the length when none does.
pub open spec fn next_char(s: Seq<char>, i: int, c: char) -> int
    decreases s.len() - i,
{
    if i >= s.len() {
        s.len() as int
    } else if s[i] == c {
        i
    } else {
        next_char(s, i + 1, c)
    }
}

pub proof fn lemma_next_char(s: Seq<char>, i: int, c: char)
    requires
        0 <= i <= s.len(),
    ensures
        i <= next_char(s, i, c) <= s.len(),
        forall|j: int| i <= j < next_char(s, i, c) ==> s[j] != c,
        next_char(s, i, c) < s.len() ==> s[next_char(s, i, c)] == c,
    decreases s.len() - i,
{
    if i < s.len() && s[i] != c {
        lemma_next_char(s, i + 1, c);
    }
}

pub fn find_char(s: &Vec<char>, i: usize, c: char) -> (r: usize)
    requires
        i <= s.len(),
    ensures
        r == next_char(s@, i as int, c),
{
    let mut j = i;
    while j < s.len() && s[j] != c
        invariant
            i <= j <= s.len(),
            next_char(s@, i as int, c) == next_char(s@, j as int, c),
        decreases s.len() - j,
    {
        j = j + 1;
    }
    j
}

/// The non-empty pieces of `s` from index `i` on, between the separator `sep`.
pub open spec fn pieces_from(s: Seq<char>, i: int, sep: char) -> Seq<Seq<char>>
    decreases s.len() - i,
{
    if i < 0 || i >= s.len() {
        Seq::empty()
    } else {
        let j = next_char(s, i, sep);
        let rest = if i <= j < s.len() {
            pieces_from(s, j + 1, sep)
        } else {
            Seq::empty()
        };
        if i < j <= s.len() {
            seq![s.subrange(i, j)] + rest
        } else {
            rest
        }
    }
}

/// The components of a path: its non-empty pieces between `/`.
pub open spec fn components(s: Seq<char>) -> Seq<Seq<char>> {
    pieces_from(s, 0, '/')
}

pub fn path_components(p: &str) -> (r: Vec<String>)
    ensures
        crate::scope::strings_view(r@) == components(p@),
{
    let s = to_chars(p);
    let n = s.len();
    let mut out: Vec<String> = Vec::new();
    let mut i: usize = 0;
    while i < n
        invariant
            s@ == p@,
            n == s.len(),
            i <= n,
            crate::scope::strings_view(out@) + pieces_from(s@, i as int, '/') == components(
                s@,
            ),
        decreases n - i,
    {
        let j = find_char(&s, i, '/');
        proof {
            lemma_next_char(s@, i as int, '/');
        }
        let ghost before = out@;
        if j > i {
            out.push(owned(p.substring_char(i, j)));
            assert(crate::scope::strings_view(out@) == crate::scope::strings_view(before) + seq![
                s@.subrange(i as int, j as int),
            ]);
        }
        if j < n {
            i = j + 1;
        } else {
            assert(pieces_from(s@, j as int, '/') == Seq::<Seq<char>>::empty());
            i = j;
        }
    }
    assert(pieces_from(s@, n as int, '/') == Seq::<Seq<char>>::empty());
    out
}

/// The pieces joined, with `sep` between two neighbours.
pub open spec fn join(cs: Seq<Seq<char>>, sep: char) -> Seq<char>
    decreases cs.len(),
{
    if cs.len() == 0 {
        Seq::empty()
    } else if cs.len() == 1 {
        cs[0]
    } else {
        join(cs.drop_last(), sep).push(sep) + cs.last()
    }
}

pub fn join_with(cs: &Vec<String>, sep: char, sep_text: &str) -> (r: String)
    requires
        sep_text@.len() == 1,
        sep_text@[0] == sep,
    ensures
        r@ == join(crate::scope::strings_view(cs@), sep),
{
    assert(sep_text@ =~= seq![sep]);
    let ghost v = crate::scope::strings_view(cs@);
    let mut r = String::new();
    let mut i: usize = 0;
    while i < cs.len()
        invariant
            sep_text@ == seq![sep],
            v == crate::scope::strings_view(cs@),
            i <= cs.len(),
            r@ == join(v.take(i as int), sep),
        decreases cs.len() - i,
    {
        assert(v.take(i + 1).drop_last() == v.take(i as int));
        if i > 0 {
            r.append(sep_text);
        }
        r.append(cs[i].as_str());
        i = i + 1;
    }
    assert(v.take(cs.len() as int) == v);
    r
}

/// The index of the last `.` in `c`, or -1.
pub open spec fn last_dot(c: Seq<char>) -> int
    decreases c.len(),
{
    if c.len() == 0 {
        -1
    } else if c.last() == '.' {
        c.len() - 1
    } else {
        last_dot(c.drop_last())
    }
}

/// A file name without its extension: the text before its last `.`, where
/// that `.` is not the first character.
pub open spec fn stem(c: Seq<char>) -> Seq<char> {
    if last_dot(c) > 0 {
        c.take(last_dot(c))
    } else {
        c
    }
}

pub proof fn lemma_last_dot(c: Seq<char>)
    ensures
        -1 <= last_dot(c) < c.len(),
        last_dot(c) >= 0 ==> c[last_dot(c)] == '.',
        forall|j: int| last_dot(c) < j < c.len() ==> c[j] != '.',
    decreases c.len(),
{
    if c.len() > 0 && c.last() != '.' {
        lemma_last_dot(c.drop_last());
        assert forall|j: int| last_dot(c) < j < c.len() implies c[j] != '.' by {
            if j < c.len() - 1 {
                assert(c.drop_last()[j] == c[j]);
            }
        }
    }
}

pub fn file_stem(c: &str) -> (r: String)
    ensures
        r@ == stem(c@),
{
    let s = to_chars(c);
    let mut i: usize = s.len();
    assert(s@.take(i as int) == s@);
    while i > 0 && s[i - 1] != '.'
        invariant
            s@ == c@,
            i <= s.len(),
            last_dot(c@) == last_dot(s@.take(i as int)),
        decreases i,
    {
        assert(s@.take(i as int).drop_last() == s@.take(i - 1));
        i = i - 1;
    }
    if i > 1 {
        assert(s@.take(i as int).last() == '.');
        owned(c.substring_char(0, i - 1))
    } else {
        assert(i == 0 ==> s@.take(0) == Seq::<char>::empty());
        assert(s@.take(s.len() as int) == s@);
        owned(c)
    }
}


/// `s` with every `.` turned into `/`.
pub open spec fn dots_to_slashes(s: Seq<char>) -> Seq<char> {
    s.map_values(|c: char| if c == '.' { '/' } else { c })
}

pub fn replace_dots(s: &str) -> (r: String)
    ensures
        r@ == dots_to_slashes(s@),
{
    proof {
        reveal_strlit("/");
        assert("/"@ =~= seq!['/']);
    }
    let cs = to_chars(s);
    let mut r = String::new();
    let mut i: usize = 0;
    while i < cs.len()
        invariant
            cs@ == s@,
            i <= cs.len(),
            "/"@ == seq!['/'],
            r@ == dots_to_slashes(s@).take(i as int),
        decreases cs.len() - i,
    {
        if cs[i] == '.' {
            r.append("/");
        } else {
            let piece = s.substring_char(i, i + 1);
            assert(piece@ =~= seq![cs@[i as int]]);
            r.append(piece);
        }
        assert(r@ =~= dots_to_slashes(s@).take(i + 1));
        i = i + 1;
    }
    assert(dots_to_slashes(s@).take(cs.len() as int) =~= dots_to_slashes(s@));
    r
}

} // verus!
