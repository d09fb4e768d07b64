//! The list aggregator: folds a flat relational join — one row per
//! (list, movie) membership, sorted by list id — into an ordered sequence
//! of list summaries, one per contiguous run of equal list ids.
//!
//! The fold is a single linear pass with one current-group accumulator.
//! Group order is the order runs first appear in the input, and titles
//! within a group keep input order; the pass is well defined on any input,
//! and equals per-list grouping exactly when the input is sorted by list id.

use vstd::prelude::*;
use vstd::seq_lib::lemma_flatten_concat;

verus! {

/// One row of the flat join: a membership's list id together with the
/// list's name and the member movie's title.
pub struct ListItem {
    pub list_id: u64,
    pub name: String,
    pub title: String,
}

/// Mathematical view of a join row.
pub ghost struct ListItemV {
    pub list_id: u64,
    pub name: Seq<char>,
    pub title: Seq<char>,
}

impl View for ListItem {
    type V = ListItemV;

    open spec fn view(&self) -> ListItemV {
        ListItemV { list_id: self.list_id, name: self.name@, title: self.title@ }
    }
}

/// One reconstructed list summary: the list's id and name with the titles
/// of its member movies, in membership order.
pub struct MyList {
    pub id: u64,
    pub name: String,
    pub titles: Vec<String>,
}

/// Mathematical view of a list summary.
#[verifier::ext_equal]
pub ghost struct MyListV {
    pub id: u64,
    pub name: Seq<char>,
    pub titles: Seq<Seq<char>>,
}

/// The views of a sequence of title strings.
pub open spec fn titles_view(ts: Seq<String>) -> Seq<Seq<char>> {
    ts.map_values(|t: String| t@)
}

impl View for MyList {
    type V = MyListV;

    open spec fn view(&self) -> MyListV {
        MyListV { id: self.id, name: self.name@, titles: titles_view(self.titles@) }
    }
}

/// The views of a sequence of join rows.
pub open spec fn items_view(rows: Seq<ListItem>) -> Seq<ListItemV> {
    rows.map_values(|r: ListItem| r@)
}

/// The views of a sequence of list summaries.
pub open spec fn lists_view(out: Seq<MyList>) -> Seq<MyListV> {
    out.map_values(|m: MyList| m@)
}

/// A fresh group opened from one row.
pub open spec fn group_of(r: ListItemV) -> MyListV {
    MyListV { id: r.list_id, name: r.name, titles: seq![r.title] }
}

/// A group extended by one more title.
pub open spec fn with_title(g: MyListV, t: Seq<char>) -> MyListV {
    MyListV { id: g.id, name: g.name, titles: g.titles.push(t) }
}

/// The groups produced from the remaining rows, given the group currently
/// being accumulated: a row with the accumulator's id extends it, any other
/// row closes it and opens a new group; the accumulator is emitted at the
/// end of the input.
pub open spec fn agg_from(rows: Seq<ListItemV>, acc: MyListV) -> Seq<MyListV>
    decreases rows.len(),
{
    if rows.len() == 0 {
        seq![acc]
    } else if rows[0].list_id == acc.id {
        agg_from(rows.drop_first(), with_title(acc, rows[0].title))
    } else {
        seq![acc] + agg_from(rows.drop_first(), group_of(rows[0]))
    }
}

/// The full aggregation: empty input gives empty output; otherwise the
/// first row opens the first group.
pub open spec fn spec_aggregate(rows: Seq<ListItemV>) -> Seq<MyListV> {
    if rows.len() == 0 {
        Seq::<MyListV>::empty()
    } else {
        agg_from(rows.drop_first(), group_of(rows[0]))
    }
}

/// Folds the join rows into list summaries in a single pass.
///
/// Intended to run on rows sorted by list id (the list service guarantees
/// this); on any input it groups contiguous runs of equal list ids, which
/// is exactly per-list grouping when the input is sorted.
pub fn aggregate(rows: &Vec<ListItem>) -> (out: Vec<MyList>)
    ensures
        lists_view(out@) == spec_aggregate(items_view(rows@)),
        rows@.len() == 0 ==> out@.len() == 0,
{
    let mut out: Vec<MyList> = Vec::new();
    let mut acc_id: u64 = 0;
    let mut acc_name: String = String::new();
    let mut acc_titles: Vec<String> = Vec::new();
    let n = rows.len();
    let mut i: usize = 0;
    while i < n
        invariant
            n == rows@.len(),
            0 <= i <= n,
            i == 0 ==> out@.len() == 0 && acc_titles@.len() == 0,
            i > 0 ==> acc_titles@.len() > 0,
            i > 0 ==> spec_aggregate(items_view(rows@)) == lists_view(out@) + agg_from(
                items_view(rows@).skip(i as int),
                (MyListV { id: acc_id, name: acc_name@, titles: titles_view(acc_titles@) }),
            ),
        decreases n - i,
    {
        proof {
            assert(items_view(rows@)[i as int] == rows@[i as int]@);
            assert(items_view(rows@).skip(i as int).drop_first() =~= items_view(rows@).skip(
                i as int + 1,
            ));
        }
        let row = &rows[i];
        if acc_titles.len() == 0 {
            acc_id = row.list_id;
            acc_name = row.name.clone();
            acc_titles.push(row.title.clone());
            proof {
                let items = items_view(rows@);
                assert(items.skip(1) =~= items.drop_first());
                assert((MyListV {
                    id: acc_id,
                    name: acc_name@,
                    titles: titles_view(acc_titles@),
                }) =~= group_of(items[0]));
                assert(lists_view(out@) + agg_from(items.skip(1), group_of(items[0])) =~= agg_from(
                    items.drop_first(),
                    group_of(items[0]),
                ));
            }
        } else if acc_id == row.list_id {
            let ghost prior = MyListV { id: acc_id, name: acc_name@, titles: titles_view(acc_titles@) };
            acc_titles.push(row.title.clone());
            proof {
                assert(titles_view(acc_titles@) =~= prior.titles.push(rows@[i as int].title@));
                assert((MyListV {
                    id: acc_id,
                    name: acc_name@,
                    titles: titles_view(acc_titles@),
                }) =~= with_title(prior, items_view(rows@)[i as int].title));
            }
        } else {
            let ghost prior = MyListV { id: acc_id, name: acc_name@, titles: titles_view(acc_titles@) };
            let ghost out_prior = out@;
            let finished = MyList { id: acc_id, name: acc_name, titles: acc_titles };
            out.push(finished);
            acc_id = row.list_id;
            acc_name = row.name.clone();
            acc_titles = Vec::new();
            acc_titles.push(row.title.clone());
            proof {
                let items = items_view(rows@);
                assert(lists_view(out@) =~= lists_view(out_prior).push(prior));
                assert((MyListV {
                    id: acc_id,
                    name: acc_name@,
                    titles: titles_view(acc_titles@),
                }) =~= group_of(items[i as int]));
                assert(lists_view(out_prior).push(prior) + agg_from(
                    items.skip(i as int + 1),
                    group_of(items[i as int]),
                ) =~= lists_view(out_prior) + (seq![prior] + agg_from(
                    items.skip(i as int + 1),
                    group_of(items[i as int]),
                )));
            }
        }
        i = i + 1;
    }
    if acc_titles.len() > 0 {
        let ghost prior = MyListV { id: acc_id, name: acc_name@, titles: titles_view(acc_titles@) };
        let ghost out_prior = out@;
        out.push(MyList { id: acc_id, name: acc_name, titles: acc_titles });
        proof {
            let items = items_view(rows@);
            assert(items.skip(n as int) =~= Seq::<ListItemV>::empty());
            assert(agg_from(items.skip(n as int), prior) == seq![prior]);
            assert(lists_view(out@) =~= lists_view(out_prior) + seq![prior]);
        }
    } else {
        proof {
            assert(lists_view(out@) =~= Seq::<MyListV>::empty());
        }
    }
    out
}

/// Aggregation is deterministic: equal inputs give equal outputs. Running
/// the fold twice on the same sorted join yields identical summaries.
pub proof fn lemma_aggregate_deterministic(a: Seq<ListItemV>, b: Seq<ListItemV>)
    requires
        a == b,
    ensures
        spec_aggregate(a) == spec_aggregate(b),
{
}

/// The titles of a sequence of groups, concatenated in group order.
pub open spec fn flat_titles(gs: Seq<MyListV>) -> Seq<Seq<char>> {
    gs.flat_map(|g: MyListV| g.titles)
}

/// The titles carried by a sequence of join rows, in row order.
pub open spec fn row_titles(rows: Seq<ListItemV>) -> Seq<Seq<char>> {
    rows.map_values(|r: ListItemV| r.title)
}

proof fn lemma_agg_from_titles(rows: Seq<ListItemV>, acc: MyListV)
    ensures
        flat_titles(agg_from(rows, acc)) == acc.titles + row_titles(rows),
    decreases rows.len(),
{
    let f = |g: MyListV| g.titles;
    if rows.len() == 0 {
        seq![acc].lemma_flat_map_singleton(f);
        assert(acc.titles + row_titles(rows) =~= acc.titles);
    } else if rows[0].list_id == acc.id {
        lemma_agg_from_titles(rows.drop_first(), with_title(acc, rows[0].title));
        assert(acc.titles.push(rows[0].title) + row_titles(rows.drop_first()) =~= acc.titles
            + row_titles(rows));
    } else {
        let rest = agg_from(rows.drop_first(), group_of(rows[0]));
        lemma_agg_from_titles(rows.drop_first(), group_of(rows[0]));
        assert((seq![acc] + rest).map_values(f) =~= seq![acc].map_values(f) + rest.map_values(f));
        lemma_flatten_concat(seq![acc].map_values(f), rest.map_values(f));
        seq![acc].lemma_flat_map_singleton(f);
        assert(acc.titles + (seq![rows[0].title] + row_titles(rows.drop_first())) =~= acc.titles
            + row_titles(rows));
    }
}

proof fn lemma_agg_from_groups_nonempty(rows: Seq<ListItemV>, acc: MyListV)
    requires
        acc.titles.len() > 0,
    ensures
        forall|k: int|
            0 <= k < agg_from(rows, acc).len() ==> (#[trigger] agg_from(rows, acc)[k]).titles.len()
                > 0,
    decreases rows.len(),
{
    let whole = agg_from(rows, acc);
    if rows.len() == 0 {
        assert forall|k: int| 0 <= k < whole.len() implies (#[trigger] whole[k]).titles.len()
            > 0 by {
            assert(whole[k] == acc);
        }
    } else {
        if rows[0].list_id == acc.id {
            let rest = agg_from(rows.drop_first(), with_title(acc, rows[0].title));
            lemma_agg_from_groups_nonempty(rows.drop_first(), with_title(acc, rows[0].title));
            assert forall|k: int| 0 <= k < whole.len() implies (#[trigger] whole[k]).titles.len()
                > 0 by {
                assert(whole[k] == rest[k]);
            }
        } else {
            let rest = agg_from(rows.drop_first(), group_of(rows[0]));
            lemma_agg_from_groups_nonempty(rows.drop_first(), group_of(rows[0]));
            assert forall|k: int| 0 <= k < whole.len() implies (#[trigger] whole[k]).titles.len()
                > 0 by {
                if k == 0 {
                    assert(whole[0] == acc);
                } else {
                    assert(whole[k] == rest[k - 1]);
                }
            }
        }
    }
}

/// Every emitted group carries at least one title: a group only ever opens
/// from a row, which contributes its title, so a list with no join rows —
/// one with zero resolvable memberships — never appears in the output.
pub proof fn lemma_aggregate_groups_nonempty(rows: Seq<ListItemV>)
    ensures
        forall|k: int|
            0 <= k < spec_aggregate(rows).len() ==> (#[trigger] spec_aggregate(
                rows,
            )[k]).titles.len() > 0,
{
    if rows.len() > 0 {
        lemma_agg_from_groups_nonempty(rows.drop_first(), group_of(rows[0]));
    }
}

/// Aggregation preserves titles and their order: concatenating the title
/// sequences of the output groups, in output order, gives back exactly the
/// input rows' titles in input order. Reordering titles inside one group's
/// contiguous run therefore reorders the output correspondingly — the fold
/// is order-preserving, never order-correcting.
pub proof fn lemma_aggregate_preserves_titles(rows: Seq<ListItemV>)
    ensures
        flat_titles(spec_aggregate(rows)) == row_titles(rows),
{
    if rows.len() == 0 {
        let f = |g: MyListV| g.titles;
        assert(Seq::<MyListV>::empty().map_values(f) =~= Seq::<Seq<Seq<char>>>::empty());
        assert(flat_titles(spec_aggregate(rows)) =~= row_titles(rows));
    } else {
        lemma_agg_from_titles(rows.drop_first(), group_of(rows[0]));
        assert(seq![rows[0].title] + row_titles(rows.drop_first()) =~= row_titles(rows));
    }
}

} // verus!
