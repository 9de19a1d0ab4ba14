use vstd::prelude::*;

verus! {

/// The mathematical form of a scope-qualified key.
pub enum ScopeName {
    Local(Seq<char>),
    Global(Seq<char>),
}

impl ScopeName {
    pub open spec fn key(self) -> Seq<char> {
        match self {
            ScopeName::Local(k) => k,
            ScopeName::Global(k) => k,
        }
    }
}

/// A key qualified by the scope it was defined in.
#[derive(Debug, Clone)]
pub enum Scope {
    Local(String),
    Global(String),
}

impl View for Scope {
    type V = ScopeName;

    open spec fn view(&self) -> ScopeName {
        match self {
            Scope::Local(k) => ScopeName::Local(k@),
            Scope::Global(k) => ScopeName::Global(k@),
        }
    }
}

impl Scope {
    pub fn create_local(s: &str) -> (r: Scope)
        ensures
            r@ == ScopeName::Local(s@),
    {
        Scope::Local(String::from_str(s))
    }

    pub fn create_global(s: &str) -> (r: Scope)
        ensures
            r@ == ScopeName::Global(s@),
    {
        Scope::Global(String::from_str(s))
    }

    pub fn is_global(&self) -> (r: bool)
        ensures
            r == (self@ is Global),
    {
        match self {
            Scope::Local(_) => false,
            Scope::Global(_) => true,
        }
    }

    pub fn is_local(&self) -> (r: bool)
        ensures
            r == (self@ is Local),
    {
        match self {
            Scope::Local(_) => true,
            Scope::Global(_) => false,
        }
    }

    /// The bare key, without its scope.
    pub fn key(&self) -> (r: &String)
        ensures
            r@ == self@.key(),
    {
        match self {
            Scope::Local(k) => k,
            Scope::Global(k) => k,
        }
    }

    /// A copy of this key.
    pub fn duplicate(&self) -> (r: Scope)
        ensures
            r@ == self@,
    {
        match self {
            Scope::Local(k) => Scope::Local(k.clone()),
            Scope::Global(k) => Scope::Global(k.clone()),
        }
    }

    /// The same key in local scope.
    pub fn local(&self) -> (r: Scope)
        ensures
            r@ == ScopeName::Local(self@.key()),
    {
        Scope::Local(self.key().clone())
    }

    /// The same key in global scope.
    pub fn global(&self) -> (r: Scope)
        ensures
            r@ == ScopeName::Global(self@.key()),
    {
        Scope::Global(self.key().clone())
    }

    pub fn same(&self, other: &Scope) -> (r: bool)
        ensures
            r == (self@ == other@),
    {
        match (self, other) {
            (Scope::Local(a), Scope::Local(b)) => a.eq(b),
            (Scope::Global(a), Scope::Global(b)) => a.eq(b),
            _ => false,
        }
    }
}

/// The map that a list of definitions denotes: a later entry for a key
/// replaces an earlier one.
pub open spec fn map_of<V>(s: Seq<(ScopeName, V)>) -> Map<ScopeName, V>
    decreases s.len(),
{
    if s.len() == 0 {
        Map::empty()
    } else {
        map_of(s.drop_last()).insert(s.last().0, s.last().1)
    }
}

/// The entries of `m` whose key is global.
pub open spec fn globals_of<V>(m: Map<ScopeName, V>) -> Map<ScopeName, V> {
    m.restrict(Set::new(|k: ScopeName| k is Global))
}

/// `own` with the global entries of `inherited` added where `own` has no entry.
pub open spec fn inherit<V>(own: Map<ScopeName, V>, inherited: Map<ScopeName, V>) -> Map<ScopeName, V> {
    globals_of(inherited).union_prefer_right(own)
}

/// Lookup in a list of definitions agrees with the map it denotes:
/// the last entry for `k` decides.
pub proof fn lemma_map_of_last<V>(s: Seq<(ScopeName, V)>, k: ScopeName, i: int)
    requires
        0 <= i < s.len(),
        s[i].0 == k,
        forall|j: int| i < j < s.len() ==> s[j].0 != k,
    ensures
        map_of(s).contains_key(k),
        map_of(s)[k] == s[i].1,
    decreases s.len(),
{
    if i < s.len() - 1 {
        lemma_map_of_last(s.drop_last(), k, i);
    }
}

pub proof fn lemma_map_of_absent<V>(s: Seq<(ScopeName, V)>, k: ScopeName)
    requires
        forall|j: int| 0 <= j < s.len() ==> s[j].0 != k,
    ensures
        !map_of(s).contains_key(k),
    decreases s.len(),
{
    if s.len() > 0 {
        lemma_map_of_absent(s.drop_last(), k);
    }
}

pub proof fn lemma_map_of_push<V>(s: Seq<(ScopeName, V)>, e: (ScopeName, V))
    ensures
        map_of(s.push(e)) == map_of(s).insert(e.0, e.1),
{
    assert(s.push(e).drop_last() == s);
}

/// Scope-keyed text definitions: variables, or pattern names.
#[derive(Debug, Clone)]
pub struct VarMap {
    pub entries: Vec<(Scope, String)>,
}

pub open spec fn var_entries(s: Seq<(Scope, String)>) -> Seq<(ScopeName, Seq<char>)> {
    s.map_values(|e: (Scope, String)| (e.0@, e.1@))
}

impl View for VarMap {
    type V = Map<ScopeName, Seq<char>>;

    open spec fn view(&self) -> Map<ScopeName, Seq<char>> {
        map_of(var_entries(self.entries@))
    }
}

impl VarMap {
    pub fn new() -> (r: VarMap)
        ensures
            r@ == Map::<ScopeName, Seq<char>>::empty(),
            r.entries@.len() == 0,
    {
        VarMap { entries: Vec::new() }
    }

    /// A copy of this map.
    pub fn duplicate(&self) -> (r: VarMap)
        ensures
            r@ == self@,
    {
        let mut r = VarMap::new();
        let mut i: usize = 0;
        while i < self.entries.len()
            invariant
                i <= self.entries.len(),
                r.entries@.len() == i,
                forall|j: int|
                    0 <= j < i ==> r.entries@[j].0@ == self.entries@[j].0@ && r.entries@[j].1@ == self.entries@[j].1@,
            decreases self.entries.len() - i,
        {
            r.entries.push((self.entries[i].0.duplicate(), self.entries[i].1.clone()));
            i = i + 1;
        }
        assert(var_entries(r.entries@) =~= var_entries(self.entries@));
        r
    }

    pub fn insert(&mut self, k: Scope, v: String)
        ensures
            final(self)@ == old(self)@.insert(k@, v@),
            final(self).entries@ == old(self).entries@.push((k, v)),
    {
        proof {
            lemma_map_of_push(var_entries(self.entries@), (k@, v@));
        }
        self.entries.push((k, v));
        assert(var_entries(self.entries@) == var_entries(old(self).entries@).push((k@, v@)));
    }

    /// The index of the entry that decides `k` among the first `end` entries.
    fn find(&self, k: &Scope, end: usize) -> (r: Option<usize>)
        requires
            end <= self.entries.len(),
        ensures
            ({
                let m = map_of(var_entries(self.entries@).take(end as int));
                &&& r matches Some(i) ==> i < end && m.contains_key(k@) && m[k@]
                    == self.entries@[i as int].1@
                &&& r is None ==> !m.contains_key(k@)
            }),
    {
        let ghost es = var_entries(self.entries@).take(end as int);
        let mut i: usize = end;
        while i > 0
            invariant
                i <= end <= self.entries.len(),
                es == var_entries(self.entries@).take(end as int),
                forall|j: int| i <= j < es.len() ==> es[j].0 != k@,
            decreases i,
        {
            i = i - 1;
            if self.entries[i].0.same(k) {
                proof {
                    lemma_map_of_last(es, k@, i as int);
                }
                return Some(i);
            }
        }
        proof {
            lemma_map_of_absent(es, k@);
        }
        None
    }

    pub fn get(&self, k: &Scope) -> (r: Option<&String>)
        ensures
            r matches Some(v) ==> self@.contains_key(k@) && self@[k@] == v@,
            r is None ==> !self@.contains_key(k@),
    {
        assert(var_entries(self.entries@).take(self.entries.len() as int) == var_entries(
            self.entries@,
        ));
        match self.find(k, self.entries.len()) {
            Some(i) => Some(&self.entries[i].1),
            None => None,
        }
    }

    pub fn contains_key(&self, k: &Scope) -> (r: bool)
        ensures
            r == self@.contains_key(k@),
    {
        self.get(k).is_some()
    }

    /// Adds the global entries of `other` whose key `self` does not define.
    pub fn merge(&mut self, other: &VarMap)
        ensures
            final(self)@ == inherit(old(self)@, other@),
    {
        let ghost own = self@;
        let ghost oes = var_entries(other.entries@);
        let n = other.entries.len();
        let n0 = self.entries.len();
        assert(var_entries(self.entries@).take(n0 as int) == var_entries(self.entries@));
        let mut i: usize = 0;
        while i < n
            invariant
                n == other.entries.len(),
                i <= n,
                oes == var_entries(other.entries@),
                self@ == inherit(own, map_of(oes.take(i as int))),
                n0 <= self.entries.len(),
                map_of(var_entries(self.entries@).take(n0 as int)) == own,
            decreases n - i,
        {
            let k = &other.entries[i].0;
            assert(oes.take(i + 1) == oes.take(i as int).push(oes[i as int]));
            proof {
                lemma_map_of_push(oes.take(i as int), oes[i as int]);
            }
            if k.is_global() && self.find(k, n0).is_none() {
                let ghost before = self.entries@;
                self.insert(k.duplicate(), other.entries[i].1.clone());
                assert(var_entries(self.entries@).take(n0 as int) =~= var_entries(before).take(
                    n0 as int,
                ));
                assert(self@ =~= inherit(own, map_of(oes.take(i + 1))));
            } else {
                assert(self@ =~= inherit(own, map_of(oes.take(i + 1))));
            }
            i = i + 1;
        }
        assert(oes.take(n as int) == oes);
    }
}

/// The texts of a list of strings.
pub open spec fn strings_view(v: Seq<String>) -> Seq<Seq<char>> {
    v.map_values(|x: String| x@)
}

pub fn clone_strings(v: &Vec<String>) -> (r: Vec<String>)
    ensures
        strings_view(r@) == strings_view(v@),
{
    let mut r: Vec<String> = Vec::new();
    let mut i: usize = 0;
    while i < v.len()
        invariant
            i <= v.len(),
            r@.len() == i,
            forall|j: int| 0 <= j < i ==> r@[j]@ == v@[j]@,
        decreases v.len() - i,
    {
        r.push(v[i].clone());
        i = i + 1;
    }
    assert(strings_view(r@) =~= strings_view(v@));
    r
}

/// Scope-keyed array definitions.
#[derive(Debug, Clone)]
pub struct ArrMap {
    pub entries: Vec<(Scope, Vec<String>)>,
}

pub open spec fn arr_entries(s: Seq<(Scope, Vec<String>)>) -> Seq<(ScopeName, Seq<Seq<char>>)> {
    s.map_values(|e: (Scope, Vec<String>)| (e.0@, strings_view(e.1@)))
}

impl View for ArrMap {
    type V = Map<ScopeName, Seq<Seq<char>>>;

    open spec fn view(&self) -> Map<ScopeName, Seq<Seq<char>>> {
        map_of(arr_entries(self.entries@))
    }
}

impl ArrMap {
    pub fn new() -> (r: ArrMap)
        ensures
            r@ == Map::<ScopeName, Seq<Seq<char>>>::empty(),
            r.entries@.len() == 0,
    {
        ArrMap { entries: Vec::new() }
    }

    /// A copy of this map.
    pub fn duplicate(&self) -> (r: ArrMap)
        ensures
            r@ == self@,
    {
        let mut r = ArrMap::new();
        let mut i: usize = 0;
        while i < self.entries.len()
            invariant
                i <= self.entries.len(),
                r.entries@.len() == i,
                forall|j: int|
                    0 <= j < i ==> r.entries@[j].0@ == self.entries@[j].0@ && strings_view(r.entries@[j].1@) == strings_view(self.entries@[j].1@),
            decreases self.entries.len() - i,
        {
            r.entries.push((self.entries[i].0.duplicate(), clone_strings(&self.entries[i].1)));
            i = i + 1;
        }
        assert(arr_entries(r.entries@) =~= arr_entries(self.entries@));
        r
    }

    pub fn insert(&mut self, k: Scope, v: Vec<String>)
        ensures
            final(self)@ == old(self)@.insert(k@, strings_view(v@)),
            final(self).entries@ == old(self).entries@.push((k, v)),
    {
        proof {
            lemma_map_of_push(arr_entries(self.entries@), (k@, strings_view(v@)));
        }
        self.entries.push((k, v));
        assert(arr_entries(self.entries@) == arr_entries(old(self).entries@).push((k@, strings_view(v@))));
    }

    /// The index of the entry that decides `k` among the first `end` entries.
    fn find(&self, k: &Scope, end: usize) -> (r: Option<usize>)
        requires
            end <= self.entries.len(),
        ensures
            ({
                let m = map_of(arr_entries(self.entries@).take(end as int));
                &&& r matches Some(i) ==> i < end && m.contains_key(k@) && m[k@]
                    == strings_view(self.entries@[i as int].1@)
                &&& r is None ==> !m.contains_key(k@)
            }),
    {
        let ghost es = arr_entries(self.entries@).take(end as int);
        let mut i: usize = end;
        while i > 0
            invariant
                i <= end <= self.entries.len(),
                es == arr_entries(self.entries@).take(end as int),
                forall|j: int| i <= j < es.len() ==> es[j].0 != k@,
            decreases i,
        {
            i = i - 1;
            if self.entries[i].0.same(k) {
                proof {
                    lemma_map_of_last(es, k@, i as int);
                }
                return Some(i);
            }
        }
        proof {
            lemma_map_of_absent(es, k@);
        }
        None
    }

    pub fn get(&self, k: &Scope) -> (r: Option<&Vec<String>>)
        ensures
            r matches Some(v) ==> self@.contains_key(k@) && self@[k@] == strings_view(v@),
            r is None ==> !self@.contains_key(k@),
    {
        assert(arr_entries(self.entries@).take(self.entries.len() as int) == arr_entries(
            self.entries@,
        ));
        match self.find(k, self.entries.len()) {
            Some(i) => Some(&self.entries[i].1),
            None => None,
        }
    }

    pub fn contains_key(&self, k: &Scope) -> (r: bool)
        ensures
            r == self@.contains_key(k@),
    {
        self.get(k).is_some()
    }

    /// Adds the global entries of `other` whose key `self` does not define.
    pub fn merge(&mut self, other: &ArrMap)
        ensures
            final(self)@ == inherit(old(self)@, other@),
    {
        let ghost own = self@;
        let ghost oes = arr_entries(other.entries@);
        let n = other.entries.len();
        let n0 = self.entries.len();
        assert(arr_entries(self.entries@).take(n0 as int) == arr_entries(self.entries@));
        let mut i: usize = 0;
        while i < n
            invariant
                n == other.entries.len(),
                i <= n,
                oes == arr_entries(other.entries@),
                self@ == inherit(own, map_of(oes.take(i as int))),
                n0 <= self.entries.len(),
                map_of(arr_entries(self.entries@).take(n0 as int)) == own,
            decreases n - i,
        {
            let k = &other.entries[i].0;
            assert(oes.take(i + 1) == oes.take(i as int).push(oes[i as int]));
            proof {
                lemma_map_of_push(oes.take(i as int), oes[i as int]);
            }
            if k.is_global() && self.find(k, n0).is_none() {
                let ghost before = self.entries@;
                self.insert(k.duplicate(), clone_strings(&other.entries[i].1));
                assert(arr_entries(self.entries@).take(n0 as int) =~= arr_entries(before).take(
                    n0 as int,
                ));
                assert(self@ =~= inherit(own, map_of(oes.take(i + 1))));
            } else {
                assert(self@ =~= inherit(own, map_of(oes.take(i + 1))));
            }
            i = i + 1;
        }
        assert(oes.take(n as int) == oes);
    }
}

} // verus!
