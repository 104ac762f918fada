//! What a store reports about its migrations.
use vstd::prelude::*;
use crate::catalog::{lemma_lex_irreflexive, lemma_lex_total, lemma_lex_transitive, lex_less, lex_lt};
use crate::splitter::views;
use crate::text::chars_of;

verus! {

broadcast use vstd::seq_lib::group_to_multiset_ensures;

/// Ascending order, repeats allowed.
pub open spec fn ascending(s: Seq<Seq<char>>) -> bool {
    forall|i: int, j: int| 0 <= i < j < s.len() ==> !lex_lt(#[trigger] s[j], #[trigger] s[i])
}

/// Whether the ledger exists and, if so, the versions it holds in ascending
/// order.
#[derive(Debug, Clone, PartialEq, Eq)]
pub struct StatusReport {
    pub ledger_exists: bool,
    pub applied: Vec<String>,
}

/// Puts versions in ascending order.
pub fn order_versions(rows: Vec<String>) -> (r: Vec<String>)
    ensures
        views(r@).to_multiset() == views(rows@).to_multiset(),
        ascending(views(r@)),
{
    let mut input = rows;
    let mut r: Vec<String> = Vec::new();
    assert(views(r@) =~= Seq::<Seq<char>>::empty());
    while input.len() > 0
        invariant
            views(input@).to_multiset().add(views(r@).to_multiset()) == views(rows@).to_multiset(),
            ascending(views(r@)),
        decreases input@.len(),
    {
        let ghost before = input@;
        let x = input.pop().unwrap();
        assert(views(before) =~= views(input@).push(x@));
        let key = chars_of(x.as_str());
        let mut j: usize = 0;
        while j < r.len() && lex_less(&chars_of(r[j].as_str()), &key)
            invariant
                j <= r@.len(),
                key@ == x@,
                forall|k: int| 0 <= k < j ==> lex_lt(#[trigger] r@[k]@, x@),
            decreases r@.len() - j,
        {
            j = j + 1;
        }
        let ghost old_r = views(r@);
        proof {
            if j < r@.len() {
                assert(!lex_lt(old_r[j as int], x@));
            }
        }
        r.insert(j, x);
        assert(views(r@) =~= old_r.insert(j as int, x@));
        proof {
            let nr = views(r@);
            assert forall|a: int, b: int| 0 <= a < b < nr.len() implies !lex_lt(
                #[trigger] nr[b],
                #[trigger] nr[a],
            ) by {
                if b == j {
                    assert(lex_lt(old_r[a], x@));
                    if lex_lt(x@, old_r[a]) {
                        lemma_lex_transitive(x@, old_r[a], x@);
                        lemma_lex_irreflexive(x@);
                    }
                } else if a == j {
                    let y = old_r[b - 1];
                    let z = old_r[j as int];
                    if lex_lt(y, x@) {
                        if z == x@ {
                            if b - 1 > j {
                                assert(!lex_lt(y, z));
                            } else {
                                lemma_lex_irreflexive(z);
                            }
                        } else {
                            lemma_lex_total(z, x@);
                            lemma_lex_transitive(y, x@, z);
                            if b - 1 == j {
                                lemma_lex_irreflexive(z);
                            }
                        }
                    }
                } else if a < j && b > j {
                    assert(lex_lt(old_r[a], x@));
                    assert(!lex_lt(old_r[b - 1], old_r[a]));
                } else if b < j {
                    assert(!lex_lt(old_r[b], old_r[a]));
                } else {
                    assert(!lex_lt(old_r[b - 1], old_r[a - 1]));
                }
            }
        }
    }
    assert(views(input@) =~= Seq::<Seq<char>>::empty());
    r
}

impl StatusReport {
    /// The report for a store: `rows` are the versions read from the ledger,
    /// and are ignored when there is no ledger.
    pub fn new(ledger_exists: bool, rows: Vec<String>) -> (r: StatusReport)
        ensures
            r.ledger_exists == ledger_exists,
            !ledger_exists ==> r.applied@.len() == 0,
            ledger_exists ==> views(r.applied@).to_multiset() == views(rows@).to_multiset(),
            ascending(views(r.applied@)),
    {
        if ledger_exists {
            StatusReport { ledger_exists, applied: order_versions(rows) }
        } else {
            let applied: Vec<String> = Vec::new();
            assert(views(applied@) =~= Seq::<Seq<char>>::empty());
            StatusReport { ledger_exists, applied }
        }
    }
}

} // verus!
