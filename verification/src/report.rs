//! The aggregator: walks the chapter tree in document order, applies the
//! exclusion list, counts each remaining chapter, and sums the counts.

use crate::book::{BookItem, WordcountConfig};
use crate::words::{count_words, word_count, WordPolicy};
use vstd::prelude::*;

verus! {

/// The views of a list of names.
pub open spec fn names_of(names: Seq<String>) -> Seq<Seq<char>> {
    names.map_values(|s: String| s@)
}

/// The entries one item of the tree contributes, in traversal order: an
/// excluded chapter contributes nothing, its whole subtree included.
pub open spec fn item_entries(
    item: BookItem,
    ignores: Seq<Seq<char>>,
    policy: WordPolicy,
) -> Seq<(Seq<char>, nat)>
    decreases item, 1int, 0int,
{
    match item {
        BookItem::Separator => Seq::empty(),
        BookItem::Chapter(c) => {
            if ignores.contains(c.name@) {
                Seq::empty()
            } else {
                seq![(c.name@, word_count(c.content@, policy))] + forest_entries_upto(
                    c.sub_items@,
                    c.sub_items@.len() as int,
                    ignores,
                    policy,
                )
            }
        },
    }
}

/// The entries the first `n` items of a forest contribute, in order.
pub open spec fn forest_entries_upto(
    items: Seq<BookItem>,
    n: int,
    ignores: Seq<Seq<char>>,
    policy: WordPolicy,
) -> Seq<(Seq<char>, nat)>
    decreases items, 0int, n,
{
    if n <= 0 || items.len() < n {
        Seq::empty()
    } else {
        forest_entries_upto(items, n - 1, ignores, policy) + item_entries(
            items[n - 1],
            ignores,
            policy,
        )
    }
}

/// The entries a whole forest contributes, in depth-first document order.
pub open spec fn forest_entries(
    items: Seq<BookItem>,
    ignores: Seq<Seq<char>>,
    policy: WordPolicy,
) -> Seq<(Seq<char>, nat)> {
    forest_entries_upto(items, items.len() as int, ignores, policy)
}

/// The sum of the counts of a list of entries.
pub open spec fn sum_counts(entries: Seq<(Seq<char>, nat)>) -> nat
    decreases entries.len(),
{
    if entries.len() == 0 {
        0
    } else {
        sum_counts(entries.drop_last()) + entries.last().1
    }
}

/// One line of the report: a chapter's name and its word count.
#[derive(Debug)]
pub struct ReportEntry {
    pub name: String,
    pub count: usize,
}

/// The report of one run: the per-chapter counts in traversal order, and
/// their sum. The total is wide enough that the sum of the counts of the
/// entries held in memory always fits.
#[derive(Debug)]
pub struct Report {
    pub entries: Vec<ReportEntry>,
    pub total: u128,
}

/// The views of a list of report entries.
pub open spec fn entry_views(entries: Seq<ReportEntry>) -> Seq<(Seq<char>, nat)> {
    entries.map_values(|e: ReportEntry| (e.name@, e.count as nat))
}

impl Report {
    /// The entries as the mathematical model sees them.
    pub open spec fn entries_view(self) -> Seq<(Seq<char>, nat)> {
        entry_views(self.entries@)
    }

    /// The total is exactly the sum of the per-chapter counts emitted.
    pub open spec fn wf(self) -> bool {
        self.total == sum_counts(self.entries_view())
    }
}

/// Whether a chapter name exactly matches an entry of the exclusion list.
fn is_ignored(name: &String, ignores: &Vec<String>) -> (b: bool)
    ensures
        b == names_of(ignores@).contains(name@),
{
    let k = ignores.len();
    for i in 0..k
        invariant
            k == ignores@.len(),
            forall|j: int| 0 <= j < i ==> names_of(ignores@)[j] != name@,
    {
        if ignores[i].eq(name) {
            proof {
                assert(names_of(ignores@)[i as int] == name@);
            }
            return true;
        }
    }
    false
}

/// Appends to `acc` the entries that one item of the tree contributes: its
/// own line first, then its subtree's, in document order; nothing at all if
/// the item is no chapter or its name is excluded.
#[verifier::loop_isolation(false)]
fn collect_item(item: &BookItem, ignores: &Vec<String>, policy: WordPolicy, acc: &mut Vec<
    ReportEntry,
>)
    ensures
        entry_views(final(acc)@) == entry_views(old(acc)@) + item_entries(
            *item,
            names_of(ignores@),
            policy,
        ),
    decreases *item,
{
    let ghost before = entry_views(acc@);
    match item {
        BookItem::Separator => {
            proof {
                assert(entry_views(acc@) =~= before + item_entries(
                    *item,
                    names_of(ignores@),
                    policy,
                ));
            }
        },
        BookItem::Chapter(c) => {
            if is_ignored(&c.name, ignores) {
                proof {
                    assert(entry_views(acc@) =~= before + item_entries(
                        *item,
                        names_of(ignores@),
                        policy,
                    ));
                }
            } else {
                let cnt = count_words(c.content.as_str(), policy);
                acc.push(ReportEntry { name: c.name.clone(), count: cnt });
                proof {
                    assert(entry_views(acc@) =~= before.push((c.name@, cnt as nat)));
                }
                let ghost mid = entry_views(acc@);
                let m = c.sub_items.len();
                for j in 0..m
                    invariant
                        m == c.sub_items@.len(),
                        entry_views(acc@) == mid + forest_entries_upto(
                            c.sub_items@,
                            j as int,
                            names_of(ignores@),
                            policy,
                        ),
                {
                    collect_item(&c.sub_items[j], ignores, policy, acc);
                    proof {
                        assert(entry_views(acc@) =~= mid + forest_entries_upto(
                            c.sub_items@,
                            j as int + 1,
                            names_of(ignores@),
                            policy,
                        ));
                    }
                }
                proof {
                    assert(entry_views(acc@) =~= before + item_entries(
                        *item,
                        names_of(ignores@),
                        policy,
                    ));
                }
            }
        },
    }
}

/// The step that keeps the running total within bounds: one more count, at
/// most `usize::MAX`, on top of at most `i` earlier ones.
proof fn lemma_total_step(t: u128, i: int, c: nat)
    requires
        0 <= i,
        i + 1 <= usize::MAX,
        t <= i * (usize::MAX as int),
        c <= usize::MAX,
    ensures
        t + c <= (i + 1) * (usize::MAX as int),
        (i + 1) * (usize::MAX as int) < u128::MAX,
{
    assert(usize::MAX as int <= u64::MAX as int);
    assert(t + c <= (i + 1) * (usize::MAX as int)) by (nonlinear_arith)
        requires
            t <= i * (usize::MAX as int),
            c <= usize::MAX,
    ;
    assert((i + 1) * (usize::MAX as int) <= (u64::MAX as int) * (u64::MAX as int))
        by (nonlinear_arith)
        requires
            0 <= i,
            i + 1 <= usize::MAX,
            usize::MAX as int <= u64::MAX as int,
    ;
    assert((u64::MAX as int) * (u64::MAX as int) < u128::MAX as int);
}

/// Sums the counts of the entries of a report.
fn total_of(entries: &Vec<ReportEntry>) -> (t: u128)
    ensures
        t == sum_counts(entry_views(entries@)),
{
    let ghost es = entry_views(entries@);
    let m = entries.len();
    let mut t: u128 = 0;
    for i in 0..m
        invariant
            m == entries@.len(),
            es == entry_views(entries@),
            t == sum_counts(es.take(i as int)),
            t <= (i as int) * (usize::MAX as int),
    {
        proof {
            assert(es.take(i as int + 1).drop_last() =~= es.take(i as int));
            assert(es.take(i as int + 1).last() == es[i as int]);
            assert(es[i as int].1 == entries@[i as int].count as nat);
            lemma_total_step(t, i as int, es[i as int].1);
        }
        t = t + (entries[i].count as u128);
    }
    proof {
        assert(es.take(m as int) =~= es);
    }
    t
}

/// Walks the forest depth-first in document order, skips every chapter
/// whose name stands in the exclusion list, together with its whole
/// subtree, counts each remaining chapter's own content under the policy,
/// and returns the entries in traversal order together with their sum.
pub fn aggregate(forest: &Vec<BookItem>, cfg: &WordcountConfig, policy: WordPolicy) -> (r: Report)
    ensures
        r.entries_view() == forest_entries(forest@, names_of(cfg.ignores@), policy),
        r.wf(),
{
    let mut entries: Vec<ReportEntry> = Vec::new();
    proof {
        assert(entry_views(entries@) =~= Seq::<(Seq<char>, nat)>::empty());
    }
    let n = forest.len();
    for i in 0..n
        invariant
            n == forest@.len(),
            entry_views(entries@) == forest_entries_upto(
                forest@,
                i as int,
                names_of(cfg.ignores@),
                policy,
            ),
    {
        collect_item(&forest[i], &cfg.ignores, policy, &mut entries);
        proof {
            assert(entry_views(entries@) =~= forest_entries_upto(
                forest@,
                i as int + 1,
                names_of(cfg.ignores@),
                policy,
            ));
        }
    }
    let total = total_of(&entries);
    Report { entries, total }
}

/// No entry of the list bears the given name.
pub open spec fn no_entry_named(entries: Seq<(Seq<char>, nat)>, name: Seq<char>) -> bool {
    forall|i: int| 0 <= i < entries.len() ==> (#[trigger] entries[i]).0 != name
}

proof fn lemma_no_entry_named_add(
    a: Seq<(Seq<char>, nat)>,
    b: Seq<(Seq<char>, nat)>,
    name: Seq<char>,
)
    requires
        no_entry_named(a, name),
        no_entry_named(b, name),
    ensures
        no_entry_named(a + b, name),
{
    assert forall|i: int| 0 <= i < (a + b).len() implies ((a + b)[i]).0 != name by {
        if i < a.len() {
            assert((a + b)[i] == a[i]);
        } else {
            assert((a + b)[i] == b[i - a.len()]);
        }
    }
}

proof fn lemma_excluded_absent_item(
    item: BookItem,
    ignores: Seq<Seq<char>>,
    policy: WordPolicy,
    name: Seq<char>,
)
    requires
        ignores.contains(name),
    ensures
        no_entry_named(item_entries(item, ignores, policy), name),
    decreases item, 1int, 0int,
{
    match item {
        BookItem::Separator => {},
        BookItem::Chapter(c) => {
            if !ignores.contains(c.name@) {
                let head = seq![(c.name@, word_count(c.content@, policy))];
                assert(no_entry_named(head, name));
                lemma_excluded_absent_upto(
                    c.sub_items@,
                    c.sub_items@.len() as int,
                    ignores,
                    policy,
                    name,
                );
                lemma_no_entry_named_add(
                    head,
                    forest_entries_upto(c.sub_items@, c.sub_items@.len() as int, ignores, policy),
                    name,
                );
            }
        },
    }
}

proof fn lemma_excluded_absent_upto(
    items: Seq<BookItem>,
    n: int,
    ignores: Seq<Seq<char>>,
    policy: WordPolicy,
    name: Seq<char>,
)
    requires
        ignores.contains(name),
    ensures
        no_entry_named(forest_entries_upto(items, n, ignores, policy), name),
    decreases items, 0int, n,
{
    if 0 < n <= items.len() {
        lemma_excluded_absent_upto(items, n - 1, ignores, policy, name);
        lemma_excluded_absent_item(items[n - 1], ignores, policy, name);
        lemma_no_entry_named_add(
            forest_entries_upto(items, n - 1, ignores, policy),
            item_entries(items[n - 1], ignores, policy),
            name,
        );
    }
}

/// A chapter whose name stands in the exclusion list never appears in the
/// report: no emitted entry bears an excluded name.
pub proof fn lemma_excluded_never_emitted(
    items: Seq<BookItem>,
    ignores: Seq<Seq<char>>,
    policy: WordPolicy,
    name: Seq<char>,
)
    requires
        ignores.contains(name),
    ensures
        no_entry_named(forest_entries(items, ignores, policy), name),
{
    lemma_excluded_absent_upto(items, items.len() as int, ignores, policy, name);
}

/// An empty forest yields an empty entry list, whose total is zero.
pub proof fn lemma_empty_forest(ignores: Seq<Seq<char>>, policy: WordPolicy)
    ensures
        forest_entries(Seq::empty(), ignores, policy) == Seq::<(Seq<char>, nat)>::empty(),
        sum_counts(forest_entries(Seq::empty(), ignores, policy)) == 0,
{
}

/// Aggregation is a pure function of the forest, the exclusion list and
/// the policy: any two reports that meet `aggregate`'s contract for the
/// same inputs agree on every entry and on the total.
pub proof fn lemma_aggregate_deterministic(
    r1: Report,
    r2: Report,
    forest: Seq<BookItem>,
    ignores: Seq<Seq<char>>,
    policy: WordPolicy,
)
    requires
        r1.entries_view() == forest_entries(forest, ignores, policy),
        r2.entries_view() == forest_entries(forest, ignores, policy),
        r1.wf(),
        r2.wf(),
    ensures
        r1.entries_view() == r2.entries_view(),
        r1.total == r2.total,
{
}

} // verus!
