//! Migration discovery: which directory entries are migrations, what their
//! versions are, and the order in which they run.
use vstd::prelude::*;
use crate::text::chars_of;
use vstd::seq_lib::to_multiset_remove;

verus! {

broadcast use vstd::seq_lib::group_to_multiset_ensures;

/// One migration found on disk: its version (the file name without the
/// `.sql` extension) and where its content can be read.
#[derive(Debug, Clone, PartialEq, Eq)]
pub struct MigrationDefinition {
    pub version: String,
    pub location: String,
}

impl View for MigrationDefinition {
    type V = (Seq<char>, Seq<char>);

    open spec fn view(&self) -> (Seq<char>, Seq<char>) {
        (self.version@, self.location@)
    }
}

/// The views of a list of definitions.
pub open spec fn def_views(v: Seq<MigrationDefinition>) -> Seq<(Seq<char>, Seq<char>)> {
    v.map_values(|d: MigrationDefinition| d@)
}

/// Lexicographic order on character sequences, by code point; for strings
/// this is the order of `String`'s `Ord`.
pub open spec fn lex_lt(a: Seq<char>, b: Seq<char>) -> bool
    decreases a.len(),
{
    if a.len() == 0 {
        b.len() > 0
    } else if b.len() == 0 {
        false
    } else if a[0] != b[0] {
        a[0] < b[0]
    } else {
        lex_lt(a.drop_first(), b.drop_first())
    }
}

/// The definitions are in ascending order of version.
pub open spec fn sorted_by_version(v: Seq<(Seq<char>, Seq<char>)>) -> bool {
    forall|i: int, j: int| 0 <= i < j < v.len() ==> !lex_lt(#[trigger] v[j].0, #[trigger] v[i].0)
}

/// No two definitions share a version.
pub open spec fn distinct_versions(v: Seq<(Seq<char>, Seq<char>)>) -> bool {
    forall|i: int, j: int| 0 <= i < j < v.len() ==> #[trigger] v[i].0 != #[trigger] v[j].0
}

/// The index of the last `'.'` of `s`, or -1.
pub open spec fn last_dot(s: Seq<char>) -> int
    decreases s.len(),
{
    if s.len() == 0 {
        -1
    } else if s.last() == '.' {
        s.len() - 1
    } else {
        last_dot(s.drop_last())
    }
}

/// The version of a file name, if the name marks a SQL file: the part before
/// the last `'.'` when that dot is not the first character and the part after
/// it is exactly `sql`.
pub open spec fn sql_version(name: Seq<char>) -> Option<Seq<char>> {
    let k = last_dot(name);
    if k > 0 && name.subrange(k + 1, name.len() as int) == seq!['s', 'q', 'l'] {
        Some(name.subrange(0, k))
    } else {
        None
    }
}

/// No sequence comes before itself.
pub proof fn lemma_lex_irreflexive(a: Seq<char>)
    ensures
        !lex_lt(a, a),
    decreases a.len(),
{
    if a.len() > 0 {
        lemma_lex_irreflexive(a.drop_first());
    }
}

/// The lexicographic order is transitive.
pub proof fn lemma_lex_transitive(a: Seq<char>, b: Seq<char>, c: Seq<char>)
    requires
        lex_lt(a, b),
        lex_lt(b, c),
    ensures
        lex_lt(a, c),
    decreases a.len(),
{
    if a.len() > 0 && b.len() > 0 && c.len() > 0 && a[0] == b[0] && b[0] == c[0] {
        lemma_lex_transitive(a.drop_first(), b.drop_first(), c.drop_first());
    }
}

/// Of two different sequences, one comes before the other.
pub proof fn lemma_lex_total(a: Seq<char>, b: Seq<char>)
    requires
        a != b,
    ensures
        lex_lt(a, b) || lex_lt(b, a),
    decreases a.len(),
{
    if a.len() > 0 && b.len() > 0 && a[0] == b[0] {
        if a.drop_first() == b.drop_first() {
            assert(a =~= seq![a[0]] + a.drop_first());
            assert(b =~= seq![b[0]] + b.drop_first());
        }
        lemma_lex_total(a.drop_first(), b.drop_first());
    } else if a.len() > 0 && b.len() > 0 {
        assert(a[0] != b[0]);
    } else if a.len() == 0 && b.len() == 0 {
        assert(a =~= b);
    }
}

/// The order of migrations does not depend on the order in which they were
/// listed: two ascending arrangements of the same migrations, with no version
/// twice, are the same sequence.
pub proof fn lemma_order_independent(a: Seq<(Seq<char>, Seq<char>)>, b: Seq<(Seq<char>, Seq<char>)>)
    requires
        a.to_multiset() == b.to_multiset(),
        sorted_by_version(a),
        sorted_by_version(b),
        distinct_versions(a),
    ensures
        a == b,
    decreases a.len(),
{
    if a.len() == 0 {
        if b.len() > 0 {
            assert(b.to_multiset().contains(b[0]));
        }
        assert(a =~= b);
    } else {
        assert(a.to_multiset().contains(a[0]));
        assert(b.contains(a[0]));
        let j = choose|j: int| 0 <= j < b.len() && b[j] == a[0];
        assert(b.to_multiset().contains(b[0]));
        assert(a.contains(b[0]));
        let i = choose|i: int| 0 <= i < a.len() && a[i] == b[0];
        if i > 0 && j > 0 {
            assert(!lex_lt(a[i].0, a[0].0));
            lemma_lex_total(a[i].0, a[0].0);
            assert(!lex_lt(b[j].0, b[0].0));
        }
        assert(a[0] == b[0]);
        let ra = a.drop_first();
        let rb = b.drop_first();
        assert(ra == a.remove(0));
        assert(rb == b.remove(0));
        to_multiset_remove(a, 0);
        to_multiset_remove(b, 0);
        assert(sorted_by_version(ra)) by {
            assert forall|x: int, y: int| 0 <= x < y < ra.len() implies !lex_lt(
                #[trigger] ra[y].0,
                #[trigger] ra[x].0,
            ) by {
                assert(ra[y] == a[y + 1] && ra[x] == a[x + 1]);
            }
        }
        assert(sorted_by_version(rb)) by {
            assert forall|x: int, y: int| 0 <= x < y < rb.len() implies !lex_lt(
                #[trigger] rb[y].0,
                #[trigger] rb[x].0,
            ) by {
                assert(rb[y] == b[y + 1] && rb[x] == b[x + 1]);
            }
        }
        assert(distinct_versions(ra)) by {
            assert forall|x: int, y: int| 0 <= x < y < ra.len() implies #[trigger] ra[x].0
                != #[trigger] ra[y].0 by {
                assert(ra[y] == a[y + 1] && ra[x] == a[x + 1]);
            }
        }
        lemma_order_independent(ra, rb);
        assert(a =~= seq![a[0]] + ra);
        assert(b =~= seq![b[0]] + rb);
    }
}

/// Whether `a` comes before `b` in lexicographic order.
pub fn lex_less(a: &Vec<char>, b: &Vec<char>) -> (r: bool)
    ensures
        r == lex_lt(a@, b@),
{
    let mut i: usize = 0;
    assert(a@.subrange(0, a@.len() as int) == a@);
    assert(b@.subrange(0, b@.len() as int) == b@);
    while i < a.len() && i < b.len() && a[i] == b[i]
        invariant
            i <= a@.len(),
            i <= b@.len(),
            lex_lt(a@, b@) == lex_lt(a@.subrange(i as int, a@.len() as int), b@.subrange(i as int, b@.len() as int)),
        decreases a@.len() - i,
    {
        let ghost sa = a@.subrange(i as int, a@.len() as int);
        let ghost sb = b@.subrange(i as int, b@.len() as int);
        assert(sa.drop_first() == a@.subrange(i + 1, a@.len() as int));
        assert(sb.drop_first() == b@.subrange(i + 1, b@.len() as int));
        i = i + 1;
    }
    if i == a.len() {
        i < b.len()
    } else if i == b.len() {
        false
    } else {
        a[i] < b[i]
    }
}

/// The migration that the directory entry `name` at `location` stands for,
/// if it is a SQL file.
pub fn definition_for(name: &str, location: String) -> (r: Option<MigrationDefinition>)
    ensures
        match sql_version(name@) {
            Some(v) => r matches Some(d) && d.version@ == v && d.location@ == location@,
            None => r is None,
        },
{
    let v = chars_of(name);
    let n = v.len();
    let mut k: usize = n;
    assert(v@.subrange(0, n as int) == v@);
    while k > 0 && v[k - 1] != '.'
        invariant
            k <= n == v@.len(),
            last_dot(v@) == last_dot(v@.subrange(0, k as int)),
        decreases k,
    {
        assert(v@.subrange(0, k as int).drop_last() == v@.subrange(0, k - 1));
        k = k - 1;
    }
    proof {
        assert(v@.subrange(0, n as int) == v@);
        if k > 0 {
            assert(v@.subrange(0, k as int).last() == '.');
        }
    }
    if k < 2 {
        return None;
    }
    let dot = k - 1;
    let ghost ext = v@.subrange(k as int, n as int);
    if n - k == 3 && v[k] == 's' && v[k + 1] == 'q' && v[k + 2] == 'l' {
        assert(ext =~= seq!['s', 'q', 'l']);
        let version = crate::text::string_of(&v, 0, dot);
        Some(MigrationDefinition { version, location })
    } else {
        proof {
            if ext == seq!['s', 'q', 'l'] {
                assert(ext.len() == 3);
                assert(ext[0] == 's' && ext[1] == 'q' && ext[2] == 'l');
            }
        }
        None
    }
}

/// Orders migrations by ascending version, the order in which they run.
pub fn order_catalog(defs: Vec<MigrationDefinition>) -> (r: Vec<MigrationDefinition>)
    ensures
        def_views(r@).to_multiset() == def_views(defs@).to_multiset(),
        sorted_by_version(def_views(r@)),
        r@.len() == defs@.len(),
{
    let mut input = defs;
    let mut r: Vec<MigrationDefinition> = Vec::new();
    assert(def_views(r@) =~= Seq::<(Seq<char>, Seq<char>)>::empty());
    while input.len() > 0
        invariant
            def_views(input@).to_multiset().add(def_views(r@).to_multiset()) == def_views(
                defs@,
            ).to_multiset(),
            sorted_by_version(def_views(r@)),
            input@.len() + r@.len() == defs@.len(),
        decreases input@.len(),
    {
        let ghost before = input@;
        let x = input.pop().unwrap();
        assert(def_views(before) =~= def_views(input@).push(x@));
        let key = chars_of(x.version.as_str());
        let mut j: usize = 0;
        while j < r.len() && lex_less(&chars_of(r[j].version.as_str()), &key)
            invariant
                j <= r@.len(),
                key@ == x.version@,
                forall|k: int| 0 <= k < j ==> lex_lt(#[trigger] r@[k].version@, x.version@),
            decreases r@.len() - j,
        {
            j = j + 1;
        }
        let ghost old_r = def_views(r@);
        proof {
            if j < r@.len() {
                assert(!lex_lt(old_r[j as int].0, x.version@));
            }
        }
        r.insert(j, x);
        assert(def_views(r@) =~= old_r.insert(j as int, x@));
        proof {
            let nr = def_views(r@);
            assert forall|a: int, b: int| 0 <= a < b < nr.len() implies !lex_lt(
                #[trigger] nr[b].0,
                #[trigger] nr[a].0,
            ) by {
                if b == j {
                    assert(lex_lt(old_r[a].0, x.version@));
                    if lex_lt(x.version@, old_r[a].0) {
                        lemma_lex_transitive(x.version@, old_r[a].0, x.version@);
                        lemma_lex_irreflexive(x.version@);
                    }
                } else if a == j {
                    let y = old_r[b - 1].0;
                    let z = old_r[j as int].0;
                    if lex_lt(y, x.version@) {
                        if z == x.version@ {
                            if b - 1 > j {
                                assert(!lex_lt(y, z));
                            } else {
                                lemma_lex_irreflexive(z);
                            }
                        } else {
                            lemma_lex_total(z, x.version@);
                            lemma_lex_transitive(y, x.version@, z);
                            if b - 1 == j {
                                lemma_lex_irreflexive(z);
                            }
                        }
                    }
                } else if a < j && b > j {
                    let y = old_r[b - 1].0;
                    assert(lex_lt(old_r[a].0, x.version@));
                    assert(!lex_lt(y, old_r[a].0));
                } else if b < j {
                    assert(!lex_lt(old_r[b].0, old_r[a].0));
                } else {
                    assert(!lex_lt(old_r[b - 1].0, old_r[a - 1].0));
                }
            }
        }
    }
    assert(def_views(input@) =~= Seq::<(Seq<char>, Seq<char>)>::empty());
    r
}

} // verus!
