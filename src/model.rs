//! A mathematical store that answers the runner's commands, and what whole
//! runs against it guarantee.
//!
//! The model store keeps the ledger (a set of versions, plus whether its table
//! exists) and the log of executed statements. Reading a migration returns
//! `contents(location)`; a statement fails when `fails(log, statement)` holds,
//! where `log` is every statement executed before it, so any deterministic
//! database can be described.
use vstd::prelude::*;
use crate::catalog::{distinct_versions, lemma_lex_total, lex_lt, sorted_by_version};
use crate::status::ascending;
use crate::runner::{next, wf, CommandView, ErrorView, MigratorView, Phase, ReplyView};
use crate::splitter::statements;

verus! {

/// The state of a store, as far as migrations see it.
pub struct StoreModel {
    pub ledger_exists: bool,
    pub ledger: Set<Seq<char>>,
    pub executed: Seq<Seq<char>>,
}

/// How the model store carries out a command, and its reply.
pub open spec fn respond(
    st: StoreModel,
    c: CommandView,
    contents: spec_fn(Seq<char>) -> Seq<char>,
    fails: spec_fn(Seq<Seq<char>>, Seq<char>) -> bool,
) -> (StoreModel, ReplyView) {
    match c {
        CommandView::CreateLedger => (StoreModel { ledger_exists: true, ..st }, ReplyView::Done),
        CommandView::CheckApplied(v) => (st, ReplyView::Applied(st.ledger.contains(v))),
        CommandView::ReadContent(l) => (st, ReplyView::Content(contents(l))),
        CommandView::Execute(_, _, s) => (
            StoreModel { executed: st.executed.push(s), ..st },
            if fails(st.executed, s) {
                ReplyView::Error(Seq::empty())
            } else {
                ReplyView::Done
            },
        ),
        CommandView::Record(v) => (StoreModel { ledger: st.ledger.insert(v), ..st }, ReplyView::Done),
        _ => (st, ReplyView::Done),
    }
}

/// Whether a command ends the run.
pub open spec fn is_final(c: CommandView) -> bool {
    c is Succeeded || c is Failed
}

/// Runs the runner from state `m`, with `r` the reply to its last command,
/// against the model store, for at most `fuel` further commands. Returns the
/// runner, the store, and the last command issued.
pub open spec fn drive(
    m: MigratorView,
    st: StoreModel,
    r: ReplyView,
    fuel: nat,
    contents: spec_fn(Seq<char>) -> Seq<char>,
    fails: spec_fn(Seq<Seq<char>>, Seq<char>) -> bool,
) -> (MigratorView, StoreModel, CommandView)
    decreases fuel,
{
    let (m2, c) = next(m, r);
    if fuel == 0 || is_final(c) {
        (m2, st, c)
    } else {
        let (st2, r2) = respond(st, c, contents, fails);
        drive(m2, st2, r2, (fuel - 1) as nat, contents, fails)
    }
}

/// A fresh runner over `catalog`.
pub open spec fn start(catalog: Seq<(Seq<char>, Seq<char>)>) -> MigratorView {
    MigratorView { catalog, phase: Phase::Idle, cursor: 0, statements: Seq::empty(), position: 0 }
}

/// One call of migrate against the model store.
pub open spec fn migrate(
    catalog: Seq<(Seq<char>, Seq<char>)>,
    st: StoreModel,
    fuel: nat,
    contents: spec_fn(Seq<char>) -> Seq<char>,
    fails: spec_fn(Seq<Seq<char>>, Seq<char>) -> bool,
) -> (MigratorView, StoreModel, CommandView) {
    drive(start(catalog), st, ReplyView::Start, fuel, contents, fails)
}

/// The versions of the first `n` migrations.
pub open spec fn prefix_versions(catalog: Seq<(Seq<char>, Seq<char>)>, n: nat) -> Set<Seq<char>>
    decreases n,
{
    if n == 0 {
        Set::empty()
    } else {
        prefix_versions(catalog, (n - 1) as nat).insert(catalog[n - 1].0)
    }
}

/// The versions of a catalog, in its order.
pub open spec fn versions(catalog: Seq<(Seq<char>, Seq<char>)>) -> Seq<Seq<char>> {
    catalog.map_values(|d: (Seq<char>, Seq<char>)| d.0)
}

proof fn lemma_prefix_contains(catalog: Seq<(Seq<char>, Seq<char>)>, n: nat, i: int)
    requires
        0 <= i < n,
    ensures
        prefix_versions(catalog, n).contains(catalog[i].0),
    decreases n,
{
    if i < n - 1 {
        lemma_prefix_contains(catalog, (n - 1) as nat, i);
    }
}

proof fn lemma_prefix_within(catalog: Seq<(Seq<char>, Seq<char>)>, n: nat, v: Seq<char>)
    requires
        prefix_versions(catalog, n).contains(v),
    ensures
        exists|i: int| 0 <= i < n && catalog[i].0 == v,
    decreases n,
{
    if n > 0 && v != catalog[n - 1].0 {
        lemma_prefix_within(catalog, (n - 1) as nat, v);
        let i = choose|i: int| 0 <= i < n - 1 && catalog[i].0 == v;
        assert(0 <= i < n && catalog[i].0 == v);
    } else if n > 0 {
        assert(catalog[n - 1].0 == v);
    }
}

/// What holds at every point of a run that started with ledger `init`.
pub open spec fn run_inv(
    m: MigratorView,
    st: StoreModel,
    r: ReplyView,
    init: Set<Seq<char>>,
    contents: spec_fn(Seq<char>) -> Seq<char>,
) -> bool {
    &&& wf(m)
    &&& distinct_versions(m.catalog)
    &&& (m.phase != Phase::Idle ==> st.ledger_exists)
    &&& match m.phase {
        Phase::Idle => r == ReplyView::Start && m.cursor == 0 && st.ledger == init,
        Phase::CreatingLedger => r == ReplyView::Done && m.cursor == 0 && st.ledger == init,
        Phase::Checking => {
            &&& st.ledger == init.union(prefix_versions(m.catalog, m.cursor))
            &&& r == ReplyView::Applied(st.ledger.contains(m.catalog[m.cursor as int].0))
        },
        Phase::Reading => {
            &&& st.ledger == init.union(prefix_versions(m.catalog, m.cursor))
            &&& !st.ledger.contains(m.catalog[m.cursor as int].0)
            &&& r == ReplyView::Content(contents(m.catalog[m.cursor as int].1))
        },
        Phase::Executing => {
            &&& st.ledger == init.union(prefix_versions(m.catalog, m.cursor))
            &&& !st.ledger.contains(m.catalog[m.cursor as int].0)
            &&& m.statements == statements(contents(m.catalog[m.cursor as int].1))
            &&& (r is Done || r is Error)
            &&& st.executed.len() >= m.position + 1
            &&& st.executed.subrange(
                st.executed.len() - (m.position + 1),
                st.executed.len() as int,
            ) == m.statements.take(m.position + 1 as int)
        },
        Phase::Recording => {
            &&& r == ReplyView::Done
            &&& st.ledger == init.union(prefix_versions(m.catalog, m.cursor + 1))
        },
        Phase::Finished => true,
    }
}

/// What the end of a run tells about the store.
pub open spec fn run_end(
    m: MigratorView,
    st: StoreModel,
    c: CommandView,
    init: Set<Seq<char>>,
    contents: spec_fn(Seq<char>) -> Seq<char>,
) -> bool {
    &&& (c is Succeeded ==> st.ledger == init.union(prefix_versions(m.catalog, m.catalog.len()))
        && st.ledger_exists)
    &&& (c matches CommandView::Failed(ErrorView::Execution(v, k, e)) ==> {
        &&& m.cursor < m.catalog.len()
        &&& v == m.catalog[m.cursor as int].0
        &&& st.ledger == init.union(prefix_versions(m.catalog, m.cursor))
        &&& !st.ledger.contains(v)
        &&& 1 <= k <= st.executed.len()
        &&& k <= statements(contents(m.catalog[m.cursor as int].1)).len()
        &&& st.executed.subrange(st.executed.len() - k, st.executed.len() as int)
            == statements(contents(m.catalog[m.cursor as int].1)).take(k as int)
    })
}

proof fn lemma_step(
    m: MigratorView,
    st: StoreModel,
    r: ReplyView,
    init: Set<Seq<char>>,
    contents: spec_fn(Seq<char>) -> Seq<char>,
    fails: spec_fn(Seq<Seq<char>>, Seq<char>) -> bool,
)
    requires
        run_inv(m, st, r, init, contents),
    ensures
        ({
            let (m2, c) = next(m, r);
            &&& m2.catalog == m.catalog
            &&& (is_final(c) ==> run_end(m2, st, c, init, contents))
            &&& (!is_final(c) ==> run_inv(
                m2,
                respond(st, c, contents, fails).0,
                respond(st, c, contents, fails).1,
                init,
                contents,
            ))
        }),
{
    let (m2, c) = next(m, r);
    let cat = m.catalog;
    match m.phase {
        Phase::CreatingLedger => {
            assert(init.union(prefix_versions(cat, 0)) =~= init);
        },
        Phase::Checking => {
            let v = cat[m.cursor as int].0;
            if st.ledger.contains(v) {
                assert(st.ledger == init.union(prefix_versions(cat, m.cursor + 1)));
            }
        },
        Phase::Reading => {
            let t = contents(cat[m.cursor as int].1);
            if statements(t).len() > 0 {
                let st2 = respond(st, c, contents, fails).0;
                assert(st2.executed.subrange(st2.executed.len() - 1, st2.executed.len() as int)
                    =~= statements(t).take(1));
            } else {
                let v = cat[m.cursor as int].0;
                assert(st.ledger.insert(v) =~= init.union(prefix_versions(cat, m.cursor + 1)));
            }
        },
        Phase::Executing => {
            if r is Done {
                let p = m.position + 1;
                if p < m.statements.len() {
                    let st2 = respond(st, c, contents, fails).0;
                    let n = st.executed.len();
                    assert(st2.executed.subrange(n + 1 - (p + 1), n + 1 as int) =~= st.executed.subrange(
                        n - p,
                        n as int,
                    ).push(m.statements[p as int]));
                    assert(m.statements.take(p + 1 as int) =~= m.statements.take(p as int).push(
                        m.statements[p as int],
                    ));
                } else {
                    let v = cat[m.cursor as int].0;
                    assert(st.ledger.insert(v) =~= init.union(
                        prefix_versions(cat, m.cursor + 1),
                    ));
                }
            }
        },
        _ => {},
    }
}

proof fn lemma_drive(
    m: MigratorView,
    st: StoreModel,
    r: ReplyView,
    fuel: nat,
    init: Set<Seq<char>>,
    contents: spec_fn(Seq<char>) -> Seq<char>,
    fails: spec_fn(Seq<Seq<char>>, Seq<char>) -> bool,
)
    requires
        run_inv(m, st, r, init, contents),
    ensures
        ({
            let (m2, st2, c) = drive(m, st, r, fuel, contents, fails);
            &&& m2.catalog == m.catalog
            &&& run_end(m2, st2, c, init, contents)
        }),
    decreases fuel,
{
    lemma_step(m, st, r, init, contents, fails);
    let (m2, c) = next(m, r);
    if fuel > 0 && !is_final(c) {
        let (st2, r2) = respond(st, c, contents, fails);
        lemma_drive(m2, st2, r2, (fuel - 1) as nat, init, contents, fails);
    }
}

/// The run stage from which nothing is left to apply, and the commands it
/// still needs at most.
pub open spec fn idle_budget(m: MigratorView) -> int {
    match m.phase {
        Phase::Idle => m.catalog.len() + 1 as int,
        Phase::CreatingLedger => m.catalog.len() as int,
        _ => m.catalog.len() - m.cursor - 1,
    }
}

proof fn lemma_drive_all_applied(
    m: MigratorView,
    st: StoreModel,
    r: ReplyView,
    fuel: nat,
    contents: spec_fn(Seq<char>) -> Seq<char>,
    fails: spec_fn(Seq<Seq<char>>, Seq<char>) -> bool,
)
    requires
        wf(m),
        forall|i: int| 0 <= i < m.catalog.len() ==> st.ledger.contains(#[trigger] m.catalog[i].0),
        match m.phase {
            Phase::Idle => r == ReplyView::Start && m.cursor == 0,
            Phase::CreatingLedger => r == ReplyView::Done && m.cursor == 0,
            Phase::Checking => r == ReplyView::Applied(true),
            _ => false,
        },
    ensures
        ({
            let (m2, st2, c) = drive(m, st, r, fuel, contents, fails);
            &&& st2.ledger == st.ledger
            &&& st2.executed == st.executed
            &&& (fuel >= idle_budget(m) ==> c is Succeeded)
        }),
    decreases fuel,
{
    let (m2, c) = next(m, r);
    if fuel > 0 && !is_final(c) {
        let (st2, r2) = respond(st, c, contents, fails);
        if m2.phase == Phase::Checking {
            assert(st.ledger.contains(m2.catalog[m2.cursor as int].0));
        }
        lemma_drive_all_applied(m2, st2, r2, (fuel - 1) as nat, contents, fails);
    }
}

proof fn lemma_start_inv(
    catalog: Seq<(Seq<char>, Seq<char>)>,
    st: StoreModel,
    contents: spec_fn(Seq<char>) -> Seq<char>,
)
    requires
        sorted_by_version(catalog),
        distinct_versions(catalog),
    ensures
        run_inv(start(catalog), st, ReplyView::Start, st.ledger, contents),
{
}

/// Migrating twice in succession: once a run has succeeded, a second run over
/// the same migrations and store executes no statement and leaves the ledger
/// unchanged, whatever the store does; given one command more than there are
/// migrations, it succeeds.
pub proof fn lemma_migrate_idempotent(
    catalog: Seq<(Seq<char>, Seq<char>)>,
    st: StoreModel,
    fuel1: nat,
    fuel2: nat,
    contents: spec_fn(Seq<char>) -> Seq<char>,
    fails1: spec_fn(Seq<Seq<char>>, Seq<char>) -> bool,
    fails2: spec_fn(Seq<Seq<char>>, Seq<char>) -> bool,
)
    requires
        sorted_by_version(catalog),
        distinct_versions(catalog),
        migrate(catalog, st, fuel1, contents, fails1).2 is Succeeded,
    ensures
        ({
            let s1 = migrate(catalog, st, fuel1, contents, fails1).1;
            let (_, s2, c2) = migrate(catalog, s1, fuel2, contents, fails2);
            &&& s2.ledger == s1.ledger
            &&& s2.executed == s1.executed
            &&& (fuel2 > catalog.len() ==> c2 is Succeeded)
        }),
{
    lemma_start_inv(catalog, st, contents);
    lemma_drive(start(catalog), st, ReplyView::Start, fuel1, st.ledger, contents, fails1);
    let s1 = migrate(catalog, st, fuel1, contents, fails1).1;
    assert forall|i: int| 0 <= i < catalog.len() implies s1.ledger.contains(#[trigger] catalog[i].0) by {
        lemma_prefix_contains(catalog, catalog.len(), i);
    }
    lemma_drive_all_applied(start(catalog), s1, ReplyView::Start, fuel2, contents, fails2);
}

/// A failing statement is contained: when a run stops on statement `k` of
/// migration `v`, `v` is the migration at the runner's cursor, every earlier
/// migration has been recorded, `v` has not, and the last statements executed
/// are the first `k` statements of `v`, the failing one last.
pub proof fn lemma_failure_contained(
    catalog: Seq<(Seq<char>, Seq<char>)>,
    st: StoreModel,
    fuel: nat,
    contents: spec_fn(Seq<char>) -> Seq<char>,
    fails: spec_fn(Seq<Seq<char>>, Seq<char>) -> bool,
)
    requires
        sorted_by_version(catalog),
        distinct_versions(catalog),
        migrate(catalog, st, fuel, contents, fails).2 matches CommandView::Failed(
            ErrorView::Execution(_, _, _),
        ),
    ensures
        ({
            let (m, s, c) = migrate(catalog, st, fuel, contents, fails);
            let i = m.cursor as int;
            let (v, k) = match c {
                CommandView::Failed(ErrorView::Execution(v, k, _)) => (v, k as int),
                _ => (Seq::empty(), 0),
            };
            let stmts = statements(contents(catalog[i].1));
            &&& 0 <= i < catalog.len()
            &&& v == catalog[i].0
            &&& s.ledger == st.ledger.union(prefix_versions(catalog, i as nat))
            &&& forall|j: int| 0 <= j < i ==> s.ledger.contains(#[trigger] catalog[j].0)
            &&& !s.ledger.contains(v)
            &&& 1 <= k <= stmts.len()
            &&& k <= s.executed.len()
            &&& s.executed.subrange(s.executed.len() - k, s.executed.len() as int) == stmts.take(k)
        }),
{
    lemma_start_inv(catalog, st, contents);
    lemma_drive(start(catalog), st, ReplyView::Start, fuel, st.ledger, contents, fails);
    let (m, s, c) = migrate(catalog, st, fuel, contents, fails);
    assert forall|j: int| 0 <= j < m.cursor implies s.ledger.contains(#[trigger] catalog[j].0) by {
        lemma_prefix_contains(catalog, m.cursor, j);
    }
}

/// Strictly ascending, hence without repeats.
pub open spec fn strictly_ascending(s: Seq<Seq<char>>) -> bool {
    forall|i: int, j: int| 0 <= i < j < s.len() ==> lex_lt(#[trigger] s[i], #[trigger] s[j])
}

/// Two strictly ascending sequences with the same elements are equal.
pub proof fn lemma_ascending_unique(a: Seq<Seq<char>>, b: Seq<Seq<char>>)
    requires
        strictly_ascending(a),
        strictly_ascending(b),
        a.to_set() == b.to_set(),
    ensures
        a == b,
    decreases a.len(),
{
    broadcast use vstd::seq_lib::group_to_multiset_ensures;
    if a.len() == 0 {
        if b.len() > 0 {
            assert(b.to_set().contains(b[0]));
        }
        assert(a =~= b);
    } else if b.len() == 0 {
        assert(a.to_set().contains(a[0]));
    } else {
        assert(a.to_set().contains(a[0]));
        assert(b.to_set().contains(b[0]));
        let j = choose|j: int| 0 <= j < b.len() && b[j] == a[0];
        let i = choose|i: int| 0 <= i < a.len() && a[i] == b[0];
        if a[0] != b[0] {
            assert(i > 0 && j > 0);
            crate::catalog::lemma_lex_transitive(a[0], a[i], a[0]);
            crate::catalog::lemma_lex_irreflexive(a[0]);
        }
        let ra = a.drop_first();
        let rb = b.drop_first();
        assert forall|x: Seq<char>| ra.to_set().contains(x) <==> rb.to_set().contains(x) by {
            if ra.to_set().contains(x) {
                let p = choose|p: int| 0 <= p < ra.len() && ra[p] == x;
                assert(a[p + 1] == x);
                assert(b.to_set().contains(x));
                let q = choose|q: int| 0 <= q < b.len() && b[q] == x;
                if q == 0 {
                    crate::catalog::lemma_lex_irreflexive(a[0]);
                }
                assert(rb[q - 1] == x);
            }
            if rb.to_set().contains(x) {
                let p = choose|p: int| 0 <= p < rb.len() && rb[p] == x;
                assert(b[p + 1] == x);
                assert(a.to_set().contains(x));
                let q = choose|q: int| 0 <= q < a.len() && a[q] == x;
                if q == 0 {
                    crate::catalog::lemma_lex_irreflexive(b[0]);
                }
                assert(ra[q - 1] == x);
            }
        }
        assert(ra.to_set() =~= rb.to_set());
        lemma_ascending_unique(ra, rb);
        assert(a =~= seq![a[0]] + ra);
        assert(b =~= seq![b[0]] + rb);
    }
}

/// Status after migrating a store that had no ledger: once the run has
/// succeeded the ledger exists, and a report built from its rows (each
/// version once, as the ledger's key makes them), which holds those rows in
/// ascending order, lists exactly the versions of the migrations in the order
/// they ran.
pub proof fn lemma_status_after_migrate(
    catalog: Seq<(Seq<char>, Seq<char>)>,
    st: StoreModel,
    fuel: nat,
    contents: spec_fn(Seq<char>) -> Seq<char>,
    fails: spec_fn(Seq<Seq<char>>, Seq<char>) -> bool,
    rows: Seq<Seq<char>>,
    applied: Seq<Seq<char>>,
)
    requires
        sorted_by_version(catalog),
        distinct_versions(catalog),
        st.ledger == Set::<Seq<char>>::empty(),
        migrate(catalog, st, fuel, contents, fails).2 is Succeeded,
        rows.no_duplicates(),
        rows.to_set() == migrate(catalog, st, fuel, contents, fails).1.ledger,
        applied.to_multiset() == rows.to_multiset(),
        ascending(applied),
    ensures
        migrate(catalog, st, fuel, contents, fails).1.ledger_exists,
        applied == versions(catalog),
{
    broadcast use vstd::seq_lib::group_to_multiset_ensures;

    lemma_start_inv(catalog, st, contents);
    lemma_drive(start(catalog), st, ReplyView::Start, fuel, st.ledger, contents, fails);
    let s = migrate(catalog, st, fuel, contents, fails).1;
    let vs = versions(catalog);
    assert forall|x: Seq<char>| vs.to_set().contains(x) <==> s.ledger.contains(x) by {
        if vs.to_set().contains(x) {
            let p = choose|p: int| 0 <= p < vs.len() && vs[p] == x;
            lemma_prefix_contains(catalog, catalog.len(), p);
        }
        if s.ledger.contains(x) {
            lemma_prefix_within(catalog, catalog.len(), x);
            let p = choose|p: int| 0 <= p < catalog.len() && catalog[p].0 == x;
            assert(vs[p] == x);
        }
    }
    assert(vs.to_set() =~= s.ledger);
    assert forall|i: int, j: int| 0 <= i < j < vs.len() implies lex_lt(#[trigger] vs[i], #[trigger] vs[j]) by {
        lemma_lex_total(vs[i], vs[j]);
    }
    assert forall|x: Seq<char>| applied.to_set().contains(x) <==> rows.to_set().contains(x) by {
        assert(applied.contains(x) <==> applied.to_multiset().count(x) > 0);
        assert(rows.contains(x) <==> rows.to_multiset().count(x) > 0);
    }
    assert(applied.to_set() =~= rows.to_set());
    rows.lemma_multiset_has_no_duplicates();
    applied.lemma_multiset_has_no_duplicates_conv();
    assert forall|i: int, j: int| 0 <= i < j < applied.len() implies lex_lt(
        #[trigger] applied[i],
        #[trigger] applied[j],
    ) by {
        lemma_lex_total(applied[i], applied[j]);
    }
    lemma_ascending_unique(applied, vs);
}

} // verus!
