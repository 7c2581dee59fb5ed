//! The action picker's catalog: actions grouped by category in catalog
//! order, and the rows of the searchable list (category headers followed by
//! the matching actions).
//!
//! Actions and categories are identified by their index (an action by its
//! position in the catalog, a category by its position in the category list).

use vstd::prelude::*;
use crate::text::{contains, str_contains};
use vstd::string::StrSliceExecFns;

verus! {

/// The distinct categories of the first `n` catalog actions, in the order in
/// which each first occurs.
pub open spec fn group_order(categories: Seq<usize>, n: nat) -> Seq<usize>
    decreases n,
{
    if n == 0 {
        Seq::empty()
    } else {
        let g = group_order(categories, (n - 1) as nat);
        if g.contains(categories[n - 1]) {
            g
        } else {
            g.push(categories[n - 1])
        }
    }
}

/// The actions among the first `n` of the catalog whose category is `c`, in
/// catalog order.
pub open spec fn members(categories: Seq<usize>, c: usize, n: nat) -> Seq<usize>
    decreases n,
{
    if n == 0 {
        Seq::empty()
    } else {
        let m = members(categories, c, (n - 1) as nat);
        if categories[n - 1] == c {
            m.push((n - 1) as usize)
        } else {
            m
        }
    }
}

/// Whether `v` holds `x`.
fn vec_contains(v: &Vec<usize>, x: usize) -> (r: bool)
    ensures
        r == v@.contains(x),
{
    let mut i: usize = 0;
    while i < v.len()
        invariant
            i <= v@.len(),
            forall|j: int| 0 <= j < i ==> v@[j] != x,
        decreases v@.len() - i,
    {
        if v[i] == x {
            return true;
        }
        i = i + 1;
    }
    false
}

/// The action catalog grouped by category, preserving catalog order:
/// `categories[i]` is the category of catalog action `i`; each group is a
/// category with its actions, groups in order of first occurrence.
pub fn grouped_catalog(categories: &[usize]) -> (groups: Vec<(usize, Vec<usize>)>)
    ensures
        groups@.len() == group_order(categories@, categories@.len()).len(),
        forall|g: int| 0 <= g < groups@.len() ==> {
            &&& #[trigger] groups@[g].0 == group_order(categories@, categories@.len())[g]
            &&& groups@[g].1@ == members(categories@, groups@[g].0, categories@.len())
        },
{
    let n = categories.len();
    let mut order: Vec<usize> = Vec::new();
    let mut i: usize = 0;
    while i < n
        invariant
            n == categories@.len(),
            i <= n,
            order@ == group_order(categories@, i as nat),
        decreases n - i,
    {
        let c = categories[i];
        if !vec_contains(&order, c) {
            order.push(c);
        }
        i = i + 1;
    }
    let ghost order_spec = order@;
    let mut groups: Vec<(usize, Vec<usize>)> = Vec::new();
    let mut g: usize = 0;
    while g < order.len()
        invariant
            n == categories@.len(),
            order@ == order_spec,
            order_spec == group_order(categories@, n as nat),
            g <= order@.len(),
            groups@.len() == g,
            forall|h: int| 0 <= h < g ==> {
                &&& #[trigger] groups@[h].0 == order_spec[h]
                &&& groups@[h].1@ == members(categories@, groups@[h].0, n as nat)
            },
        decreases order@.len() - g,
    {
        let c = order[g];
        let mut actions: Vec<usize> = Vec::new();
        let mut j: usize = 0;
        while j < n
            invariant
                n == categories@.len(),
                j <= n,
                actions@ == members(categories@, c, j as nat),
            decreases n - j,
        {
            if categories[j] == c {
                actions.push(j);
            }
            j = j + 1;
        }
        groups.push((c, actions));
        g = g + 1;
    }
    groups
}

/// Facts about the grouping of the first `n` actions.
proof fn lemma_group_order_facts(categories: Seq<usize>, n: nat)
    requires
        n <= categories.len(),
    ensures
        group_order(categories, n).no_duplicates(),
        forall|j: int| 0 <= j < n ==> group_order(categories, n).contains(#[trigger] categories[j]),
        forall|c: usize| group_order(categories, n).contains(c) ==> exists|j: int| 0 <= j < n && categories[j] == c,
    decreases n,
{
    if n > 0 {
        lemma_group_order_facts(categories, (n - 1) as nat);
        let g = group_order(categories, (n - 1) as nat);
        let c = categories[n - 1];
        if !g.contains(c) {
            assert forall|a: int, b: int| 0 <= a < b < g.push(c).len() implies g.push(c)[a] != g.push(c)[b] by {
                if b == g.len() {
                    assert(g.contains(g[a]));
                }
            }
            assert forall|x: usize| g.push(c).contains(x) implies exists|j: int| 0 <= j < n && categories[j] == x by {
                if x != c {
                    let k = choose|k: int| 0 <= k < g.push(c).len() && g.push(c)[k] == x;
                    assert(g.contains(x)) by { assert(g[k] == x); }
                } else {
                    assert(categories[n - 1] == x);
                }
            }
            assert forall|j: int| 0 <= j < n implies g.push(c).contains(#[trigger] categories[j]) by {
                if j < n - 1 {
                    assert(g.contains(categories[j]));
                    let k = choose|k: int| 0 <= k < g.len() && g[k] == categories[j];
                    assert(g.push(c)[k] == categories[j]);
                } else {
                    assert(g.push(c)[g.len() as int] == c);
                }
            }
        } else {
            assert forall|x: usize| g.contains(x) implies exists|j: int| 0 <= j < n && categories[j] == x by {
                let j = choose|j: int| 0 <= j < n - 1 && categories[j] == x;
            }
        }
    }
}

/// Facts about the members of a category among the first `n` actions.
proof fn lemma_members_facts(categories: Seq<usize>, c: usize, n: nat)
    requires
        n <= categories.len(),
        n <= usize::MAX + 1,
    ensures
        forall|k: int| 0 <= k < members(categories, c, n).len() ==> {
            &&& (#[trigger] members(categories, c, n)[k]) < n
            &&& categories[members(categories, c, n)[k] as int] == c
        },
        forall|j: int| 0 <= j < n && categories[j] == c ==> members(categories, c, n).contains(j as usize),
        forall|a: int, b: int| 0 <= a < b < members(categories, c, n).len() ==>
            #[trigger] members(categories, c, n)[a] < #[trigger] members(categories, c, n)[b],
    decreases n,
{
    if n > 0 {
        lemma_members_facts(categories, c, (n - 1) as nat);
        let m = members(categories, c, (n - 1) as nat);
        if categories[n - 1] == c {
            let mm = m.push((n - 1) as usize);
            assert forall|j: int| 0 <= j < n && categories[j] == c implies mm.contains(j as usize) by {
                if j < n - 1 {
                    let k = choose|k: int| 0 <= k < m.len() && m[k] == j as usize;
                    assert(mm[k] == j as usize);
                } else {
                    assert(mm[m.len() as int] == j as usize);
                }
            }
        } else {
            assert forall|j: int| 0 <= j < n && categories[j] == c implies m.contains(j as usize) by {
                assert(j < n - 1);
            }
        }
    }
}

/// The grouping partitions the catalog: every category occurs in exactly one
/// group, every group's actions are exactly the actions of its category in
/// catalog order, so every action is listed once, under its own category;
/// and no group is empty.
pub proof fn lemma_grouping_partitions(categories: Seq<usize>)
    requires
        categories.len() <= usize::MAX,
    ensures
        group_order(categories, categories.len()).no_duplicates(),
        forall|j: int| 0 <= j < categories.len() ==>
            group_order(categories, categories.len()).contains(#[trigger] categories[j]),
        forall|c: usize, j: int| 0 <= j < categories.len() ==>
            (#[trigger] members(categories, c, categories.len()).contains(j as usize) <==> categories[j] == c),
        forall|c: usize, a: int, b: int| 0 <= a < b < members(categories, c, categories.len()).len() ==>
            #[trigger] members(categories, c, categories.len())[a]
                < #[trigger] members(categories, c, categories.len())[b],
        forall|g: int| 0 <= g < group_order(categories, categories.len()).len() ==>
            members(categories, #[trigger] group_order(categories, categories.len())[g], categories.len()).len() > 0,
{
    let n = categories.len();
    lemma_group_order_facts(categories, n);
    assert forall|c: usize, j: int| 0 <= j < n implies
        (#[trigger] members(categories, c, n).contains(j as usize) <==> categories[j] == c) by {
        lemma_members_facts(categories, c, n);
        if members(categories, c, n).contains(j as usize) {
            let k = choose|k: int| 0 <= k < members(categories, c, n).len() && members(categories, c, n)[k] == j as usize;
            assert(members(categories, c, n)[k] < n);
        }
    }
    assert forall|c: usize, a: int, b: int| 0 <= a < b < members(categories, c, n).len() implies
        #[trigger] members(categories, c, n)[a] < #[trigger] members(categories, c, n)[b] by {
        lemma_members_facts(categories, c, n);
    }
    assert forall|g: int| 0 <= g < group_order(categories, n).len() implies
        members(categories, #[trigger] group_order(categories, n)[g], n).len() > 0 by {
        let c = group_order(categories, n)[g];
        assert(group_order(categories, n).contains(c));
        let j = choose|j: int| 0 <= j < n && categories[j] == c;
        lemma_members_facts(categories, c, n);
        assert(members(categories, c, n).contains(j as usize));
    }
}


/// Some action before catalog position `j` has category `c`.
pub open spec fn occurs_before(categories: Seq<usize>, c: usize, j: int) -> bool {
    exists|i: int| 0 <= i < j && categories[i] == c
}

/// Groups come in the order in which their categories first occur in the
/// catalog: every action of a later group comes after some action of each
/// earlier group.
pub proof fn lemma_groups_in_first_occurrence_order(categories: Seq<usize>, n: nat)
    requires
        n <= categories.len(),
    ensures
        forall|g1: int, g2: int, j: int|
            0 <= g1 < g2 < group_order(categories, n).len() && 0 <= j < n
                && categories[j] == #[trigger] group_order(categories, n)[g2]
                ==> #[trigger] occurs_before(categories, group_order(categories, n)[g1], j),
    decreases n,
{
    if n > 0 {
        lemma_groups_in_first_occurrence_order(categories, (n - 1) as nat);
        lemma_group_order_facts(categories, (n - 1) as nat);
        let old_order = group_order(categories, (n - 1) as nat);
        let order = group_order(categories, n);
        let c = categories[n - 1];
        assert forall|g1: int, g2: int, j: int|
            0 <= g1 < g2 < order.len() && 0 <= j < n && categories[j] == #[trigger] order[g2]
            implies #[trigger] occurs_before(categories, order[g1], j) by {
            if old_order.contains(c) {
                assert(order == old_order);
                if j == n - 1 {
                    assert(old_order.contains(order[g2])) by { assert(old_order[g2] == order[g2]); }
                    let j2 = choose|j2: int| 0 <= j2 < n - 1 && categories[j2] == order[g2];
                    assert(categories[j2] == old_order[g2] && old_order[g1] == order[g1]);
                    assert(occurs_before(categories, old_order[g1], j2));
                }
            } else {
                assert(order == old_order.push(c));
                if g2 < old_order.len() {
                    if j == n - 1 {
                        assert(old_order.contains(old_order[g2]));
                    } else {
                        assert(categories[j] == old_order[g2] && old_order[g1] == order[g1]);
                        assert(occurs_before(categories, old_order[g1], j));
                    }
                } else {
                    assert(order[g2] == c);
                    if j < n - 1 {
                        assert(old_order.contains(categories[j]));
                    }
                    assert(old_order.contains(old_order[g1]));
                    let i = choose|i: int| 0 <= i < n - 1 && categories[i] == old_order[g1];
                    assert(order[g1] == old_order[g1]);
                }
            }
        }
    }
}

/// One row of the picker list.
#[derive(Debug, Clone, Copy, PartialEq, Eq, Structural)]
pub enum PickerRow {
    /// A category header; `first` drops the gap above the first header.
    Header { category: usize, first: bool },
    /// An action; `row_id` numbers the action rows from 0, and `selected`
    /// marks the action currently bound.
    Item { action: usize, row_id: usize, selected: bool },
}

/// The first `k` of `actions` that `keep` accepts, in order.
pub open spec fn kept(actions: Seq<usize>, keep: spec_fn(usize) -> bool, k: nat) -> Seq<usize>
    decreases k,
{
    if k == 0 {
        Seq::empty()
    } else {
        let m = kept(actions, keep, (k - 1) as nat);
        if keep(actions[k - 1]) {
            m.push(actions[k - 1])
        } else {
            m
        }
    }
}

/// An action of category `c` matches the (normalized) search query when the
/// query is empty, or occurs in the action's label or in its category's label.
pub open spec fn matches_query(
    query: Seq<char>,
    action_labels: Seq<Seq<char>>,
    category_labels: Seq<Seq<char>>,
    c: usize,
    a: usize,
) -> bool {
    ||| query.len() == 0
    ||| contains(action_labels[a as int], query)
    ||| contains(category_labels[c as int], query)
}

/// The matching actions of group `g`.
pub open spec fn group_matches(
    groups: Seq<(usize, Seq<usize>)>,
    query: Seq<char>,
    action_labels: Seq<Seq<char>>,
    category_labels: Seq<Seq<char>>,
    g: int,
) -> Seq<usize> {
    let (c, acts) = groups[g];
    kept(acts, |a: usize| matches_query(query, action_labels, category_labels, c, a), acts.len())
}

/// Number of action rows of the first `g` groups.
pub open spec fn items_upto(
    groups: Seq<(usize, Seq<usize>)>,
    query: Seq<char>,
    action_labels: Seq<Seq<char>>,
    category_labels: Seq<Seq<char>>,
    g: nat,
) -> nat
    decreases g,
{
    if g == 0 {
        0
    } else {
        items_upto(groups, query, action_labels, category_labels, (g - 1) as nat)
            + group_matches(groups, query, action_labels, category_labels, g - 1).len()
    }
}

/// The action rows for `actions`, numbered from `base`.
pub open spec fn item_rows(actions: Seq<usize>, base: nat, current: Option<usize>) -> Seq<PickerRow> {
    Seq::new(
        actions.len(),
        |k: int| PickerRow::Item {
            action: actions[k],
            row_id: (base + k) as usize,
            selected: current == Some(actions[k]),
        },
    )
}

/// The rows of the first `g` groups: for every group with a matching action,
/// its header and then its matching actions; groups without a match are left
/// out entirely.
pub open spec fn rows_upto(
    groups: Seq<(usize, Seq<usize>)>,
    query: Seq<char>,
    action_labels: Seq<Seq<char>>,
    category_labels: Seq<Seq<char>>,
    current: Option<usize>,
    g: nat,
) -> Seq<PickerRow>
    decreases g,
{
    if g == 0 {
        Seq::empty()
    } else {
        let prev = rows_upto(groups, query, action_labels, category_labels, current, (g - 1) as nat);
        let m = group_matches(groups, query, action_labels, category_labels, g - 1);
        let before = items_upto(groups, query, action_labels, category_labels, (g - 1) as nat);
        if m.len() == 0 {
            prev
        } else {
            prev + seq![PickerRow::Header { category: groups[g - 1].0, first: before == 0 }]
                + item_rows(m, before, current)
        }
    }
}

/// The groups as plain sequences.
pub open spec fn groups_view(groups: Seq<(usize, Vec<usize>)>) -> Seq<(usize, Seq<usize>)> {
    groups.map_values(|p: (usize, Vec<usize>)| (p.0, p.1@))
}

/// The labels as plain sequences.
pub open spec fn labels_view(labels: Seq<String>) -> Seq<Seq<char>> {
    labels.map_values(|s: String| s@)
}

/// Category-grouped, optionally filtered action rows. `query` is the
/// normalized search text; `action_labels` and `category_labels` are the
/// normalized (localized, lower-cased) labels by index; `current` is the
/// action bound now.
pub fn filtered_action_rows(
    groups: &Vec<(usize, Vec<usize>)>,
    query: &str,
    action_labels: &Vec<String>,
    category_labels: &Vec<String>,
    current: Option<usize>,
) -> (rows: Vec<PickerRow>)
    requires
        forall|g: int, k: int| 0 <= g < groups@.len() && 0 <= k < groups@[g].1@.len() ==>
            (#[trigger] groups@[g].1@[k]) < action_labels@.len(),
        forall|g: int| 0 <= g < groups@.len() ==> (#[trigger] groups@[g].0) < category_labels@.len(),
    ensures
        rows@ == rows_upto(
            groups_view(groups@),
            query@,
            labels_view(action_labels@),
            labels_view(category_labels@),
            current,
            groups@.len(),
        ),
{
    let ghost gv = groups_view(groups@);
    let ghost av = labels_view(action_labels@);
    let ghost cv = labels_view(category_labels@);
    let query_empty = query.is_empty();
    let mut rows: Vec<PickerRow> = Vec::new();
    let mut idx: usize = 0;
    let mut is_first = true;
    let mut g: usize = 0;
    while g < groups.len()
        invariant
            gv == groups_view(groups@),
            av == labels_view(action_labels@),
            cv == labels_view(category_labels@),
            query_empty == (query@.len() == 0),
            g <= groups@.len(),
            forall|g: int, k: int| 0 <= g < groups@.len() && 0 <= k < groups@[g].1@.len() ==>
                (#[trigger] groups@[g].1@[k]) < action_labels@.len(),
            forall|g: int| 0 <= g < groups@.len() ==> (#[trigger] groups@[g].0) < category_labels@.len(),
            idx == items_upto(gv, query@, av, cv, g as nat),
            idx <= rows@.len(),
            is_first == (idx == 0),
            rows@ == rows_upto(gv, query@, av, cv, current, g as nat),
        decreases groups@.len() - g,
    {
        let c = groups[g].0;
        let acts = &groups[g].1;
        let ghost keep = |a: usize| matches_query(query@, av, cv, c, a);
        assert(gv[g as int] == (c, acts@));
        let mut matching: Vec<usize> = Vec::new();
        let mut j: usize = 0;
        while j < acts.len()
            invariant
                j <= acts@.len(),
                acts@ == groups@[g as int].1@,
                g < groups@.len(),
                c < category_labels@.len(),
                av == labels_view(action_labels@),
                cv == labels_view(category_labels@),
                query_empty == (query@.len() == 0),
                forall|k: int| 0 <= k < acts@.len() ==> (#[trigger] acts@[k]) < action_labels@.len(),
                keep == |a: usize| matches_query(query@, av, cv, c, a),
                matching@ == kept(acts@, keep, j as nat),
            decreases acts@.len() - j,
        {
            let a = acts[j];
            let keep_a = query_empty || str_contains(action_labels[a].as_str(), query)
                || str_contains(category_labels[c].as_str(), query);
            assert(av[a as int] == action_labels@[a as int]@);
            assert(cv[c as int] == category_labels@[c as int]@);
            assert(keep_a == keep(a));
            if keep_a {
                matching.push(a);
            }
            j = j + 1;
        }
        assert(matching@ == group_matches(gv, query@, av, cv, g as int));
        if matching.len() > 0 {
            let ghost prev = rows@;
            rows.push(PickerRow::Header { category: c, first: is_first });
            is_first = false;
            let base = idx;
            let mut t: usize = 0;
            while t < matching.len()
                invariant
                    t <= matching@.len(),
                    idx == base + t,
                    base <= prev.len(),
                    idx <= rows@.len(),
                    rows@ == prev + seq![PickerRow::Header { category: c, first: base == 0 }]
                        + item_rows(matching@.take(t as int), base as nat, current),
                decreases matching@.len() - t,
            {
                let a = matching[t];
                rows.push(PickerRow::Item { action: a, row_id: idx, selected: current == Some(a) });
                let len = rows.len();
                assert(idx < len);
                assert(item_rows(matching@.take(t + 1), base as nat, current) =~= item_rows(
                    matching@.take(t as int),
                    base as nat,
                    current,
                ).push(PickerRow::Item { action: a, row_id: idx, selected: current == Some(a) }));
                idx = idx + 1;
                t = t + 1;
            }
            assert(matching@.take(matching@.len() as int) == matching@);
        }
        g = g + 1;
    }
    rows
}

/// The action-row count only grows with more groups.
proof fn lemma_items_upto_monotonic(
    groups: Seq<(usize, Seq<usize>)>,
    query: Seq<char>,
    action_labels: Seq<Seq<char>>,
    category_labels: Seq<Seq<char>>,
    g: nat,
    h: nat,
)
    requires
        g <= h,
    ensures
        items_upto(groups, query, action_labels, category_labels, g)
            <= items_upto(groups, query, action_labels, category_labels, h),
    decreases h - g,
{
    if g < h {
        lemma_items_upto_monotonic(groups, query, action_labels, category_labels, g, (h - 1) as nat);
    }
}


/// A filter that keeps everything keeps the whole list.
proof fn lemma_kept_all(actions: Seq<usize>, keep: spec_fn(usize) -> bool, k: nat)
    requires
        k <= actions.len(),
        forall|a: usize| #[trigger] keep(a),
    ensures
        kept(actions, keep, k) == actions.take(k as int),
    decreases k,
{
    if k > 0 {
        lemma_kept_all(actions, keep, (k - 1) as nat);
        assert(actions.take(k as int) == actions.take(k - 1).push(actions[k - 1]));
    }
}

/// With an empty search query every group lists all of its actions.
pub proof fn lemma_empty_query_lists_everything(
    groups: Seq<(usize, Seq<usize>)>,
    action_labels: Seq<Seq<char>>,
    category_labels: Seq<Seq<char>>,
    g: int,
)
    requires
        0 <= g < groups.len(),
    ensures
        group_matches(groups, Seq::empty(), action_labels, category_labels, g) == groups[g].1,
{
    let (c, acts) = groups[g];
    let keep = |a: usize| matches_query(Seq::empty(), action_labels, category_labels, c, a);
    lemma_kept_all(acts, keep, acts.len());
    assert(acts.take(acts.len() as int) == acts);
}

/// `row` is the action row of action `a`.
pub open spec fn is_item_of(row: PickerRow, a: usize) -> bool {
    row matches PickerRow::Item { action, .. } && action == a
}

/// `rows` holds an action row for action `a`.
pub open spec fn lists_action(rows: Seq<PickerRow>, a: usize) -> bool {
    exists|p: int| 0 <= p < rows.len() && #[trigger] is_item_of(rows[p], a)
}

/// A filter keeps `a` exactly when `a` is among the first `k` actions and
/// the filter accepts it.
proof fn lemma_kept_contains(actions: Seq<usize>, keep: spec_fn(usize) -> bool, k: nat, a: usize)
    requires
        k <= actions.len(),
    ensures
        kept(actions, keep, k).contains(a) <==> (actions.take(k as int).contains(a) && keep(a)),
    decreases k,
{
    if k == 0 {
        assert(kept(actions, keep, k) =~= Seq::<usize>::empty());
        assert(!actions.take(0).contains(a));
    } else {
        lemma_kept_contains(actions, keep, (k - 1) as nat, a);
        let m = kept(actions, keep, (k - 1) as nat);
        let x = actions[k - 1];
        let t = actions.take(k as int);
        let t1 = actions.take(k - 1);
        assert(t =~= t1.push(x));
        let lhs = kept(actions, keep, k).contains(a);
        assert(t.contains(a) <==> (t1.contains(a) || x == a)) by {
            if t.contains(a) {
                let i = choose|i: int| 0 <= i < t.len() && t[i] == a;
                if i < k - 1 {
                    assert(t1[i] == a);
                }
            }
            if t1.contains(a) {
                let i = choose|i: int| 0 <= i < t1.len() && t1[i] == a;
                assert(t[i] == a);
            }
            if x == a {
                assert(t[k - 1] == a);
            }
        }
        if keep(x) {
            assert(kept(actions, keep, k) == m.push(x));
            assert(m.push(x).contains(a) <==> (m.contains(a) || x == a)) by {
                if m.push(x).contains(a) {
                    let i = choose|i: int| 0 <= i < m.push(x).len() && m.push(x)[i] == a;
                    if i < m.len() {
                        assert(m[i] == a);
                    }
                }
                if m.contains(a) {
                    let i = choose|i: int| 0 <= i < m.len() && m[i] == a;
                    assert(m.push(x)[i] == a);
                }
                if x == a {
                    assert(m.push(x)[m.len() as int] == a);
                }
            }
        } else {
            assert(kept(actions, keep, k) == m);
        }
    }
}

/// The rows of the first `g` groups list action `a` exactly when one of
/// those groups holds `a` and `a` matches the query in that group.
proof fn lemma_rows_upto_lists(
    groups: Seq<(usize, Seq<usize>)>,
    query: Seq<char>,
    action_labels: Seq<Seq<char>>,
    category_labels: Seq<Seq<char>>,
    current: Option<usize>,
    g: nat,
    a: usize,
)
    requires
        g <= groups.len(),
    ensures
        lists_action(rows_upto(groups, query, action_labels, category_labels, current, g), a) <==> exists|j: int|
            0 <= j < g && (#[trigger] groups[j]).1.contains(a) && (query.len() == 0 || contains(
                action_labels[a as int],
                query,
            ) || contains(category_labels[groups[j].0 as int], query)),
    decreases g,
{
    if g > 0 {
        lemma_rows_upto_lists(groups, query, action_labels, category_labels, current, (g - 1) as nat, a);
        let prev = rows_upto(groups, query, action_labels, category_labels, current, (g - 1) as nat);
        let m = group_matches(groups, query, action_labels, category_labels, g - 1);
        let before = items_upto(groups, query, action_labels, category_labels, (g - 1) as nat);
        let rows = rows_upto(groups, query, action_labels, category_labels, current, g);
        let (c, acts) = groups[g - 1];
        let keep = |b: usize| matches_query(query, action_labels, category_labels, c, b);
        lemma_kept_contains(acts, keep, acts.len(), a);
        assert(acts.take(acts.len() as int) == acts);
        let here = acts.contains(a) && (query.len() == 0 || contains(action_labels[a as int], query) || contains(
            category_labels[c as int],
            query,
        ));
        assert(m.contains(a) == here);
        let rhs_prev = exists|j: int|
            0 <= j < g - 1 && (#[trigger] groups[j]).1.contains(a) && (query.len() == 0 || contains(
                action_labels[a as int],
                query,
            ) || contains(category_labels[groups[j].0 as int], query));
        let rhs = exists|j: int|
            0 <= j < g && (#[trigger] groups[j]).1.contains(a) && (query.len() == 0 || contains(
                action_labels[a as int],
                query,
            ) || contains(category_labels[groups[j].0 as int], query));
        assert(rhs == (rhs_prev || here)) by {
            if rhs {
                let j = choose|j: int|
                    0 <= j < g && (#[trigger] groups[j]).1.contains(a) && (query.len() == 0 || contains(
                        action_labels[a as int],
                        query,
                    ) || contains(category_labels[groups[j].0 as int], query));
                if j < g - 1 {
                    assert(rhs_prev);
                }
            }
            if rhs_prev {
                let j = choose|j: int|
                    0 <= j < g - 1 && (#[trigger] groups[j]).1.contains(a) && (query.len() == 0 || contains(
                        action_labels[a as int],
                        query,
                    ) || contains(category_labels[groups[j].0 as int], query));
                assert(0 <= j < g);
            }
            if here {
                assert(groups[g - 1].1.contains(a));
            }
        }
        if m.len() > 0 {
            let head = prev + seq![PickerRow::Header { category: c, first: before == 0 }];
            let items = item_rows(m, before, current);
            assert(rows == head + items);
            if lists_action(rows, a) {
                let p = choose|p: int| 0 <= p < rows.len() && #[trigger] is_item_of(rows[p], a);
                if p < prev.len() {
                    assert(rows[p] == prev[p]);
                    assert(is_item_of(prev[p], a));
                    assert(lists_action(prev, a));
                } else if p >= head.len() {
                    let q = p - head.len();
                    assert(rows[p] == items[q]);
                    assert(m[q] == a);
                    assert(m.contains(a));
                } else {
                    assert(rows[p] == head[p]);
                    assert(!is_item_of(rows[p], a));
                }
            }
            if lists_action(prev, a) {
                let p = choose|p: int| 0 <= p < prev.len() && #[trigger] is_item_of(prev[p], a);
                assert(rows[p] == prev[p]);
                assert(is_item_of(rows[p], a));
            }
            if m.contains(a) {
                let i = choose|i: int| 0 <= i < m.len() && m[i] == a;
                assert(rows[head.len() + i] == items[i]);
                assert(is_item_of(rows[head.len() + i], a));
            }
            assert(lists_action(rows, a) == (lists_action(prev, a) || m.contains(a)));
        } else {
            assert(rows == prev);
            assert(!m.contains(a));
        }
    }
}

/// The search lists an action exactly when the query is empty or the whole
/// query occurs in the action's label or in its category's label: for every
/// action `a`, the rows hold an action row for `a` if and only if some group
/// holds `a` and one of those holds in that group.
pub proof fn lemma_search_lists_exact_matches(
    groups: Seq<(usize, Seq<usize>)>,
    query: Seq<char>,
    action_labels: Seq<Seq<char>>,
    category_labels: Seq<Seq<char>>,
    current: Option<usize>,
    a: usize,
)
    ensures
        lists_action(rows_upto(groups, query, action_labels, category_labels, current, groups.len()), a)
            <==> exists|j: int|
            0 <= j < groups.len() && (#[trigger] groups[j]).1.contains(a) && (query.len() == 0 || contains(
                action_labels[a as int],
                query,
            ) || contains(category_labels[groups[j].0 as int], query)),
{
    lemma_rows_upto_lists(groups, query, action_labels, category_labels, current, groups.len(), a);
}

/// Number of action rows in `rows`.
pub open spec fn item_count(rows: Seq<PickerRow>) -> nat
    decreases rows.len(),
{
    if rows.len() == 0 {
        0
    } else {
        item_count(rows.drop_last()) + (if rows.last() is Item { 1nat } else { 0nat })
    }
}

proof fn lemma_item_count_append(a: Seq<PickerRow>, b: Seq<PickerRow>)
    ensures
        item_count(a + b) == item_count(a) + item_count(b),
    decreases b.len(),
{
    if b.len() > 0 {
        lemma_item_count_append(a, b.drop_last());
        assert((a + b).drop_last() == a + b.drop_last());
    } else {
        assert(a + b == a);
    }
}

proof fn lemma_item_count_items(actions: Seq<usize>, base: nat, current: Option<usize>)
    ensures
        item_count(item_rows(actions, base, current)) == actions.len(),
    decreases actions.len(),
{
    if actions.len() > 0 {
        lemma_item_count_items(actions.drop_last(), base, current);
        assert(item_rows(actions, base, current).drop_last() == item_rows(actions.drop_last(), base, current));
    }
}

/// Every action row is numbered by the count of action rows above it.
pub open spec fn rows_numbered(rows: Seq<PickerRow>) -> bool {
    forall|p: int| 0 <= p < rows.len() && #[trigger] rows[p] is Item ==>
        rows[p]->row_id == item_count(rows.take(p))
}

/// Only the header at the top of the list is flagged first.
pub open spec fn first_header_at_top(rows: Seq<PickerRow>) -> bool {
    &&& rows.len() > 0 ==> rows[0] is Header
    &&& forall|p: int| 0 <= p < rows.len() && #[trigger] rows[p] is Header ==> (rows[p]->first <==> p == 0)
}

/// The rows of the list are well formed: the list starts with a header (the
/// only one flagged first), action rows are numbered 0, 1, 2, … from the top,
/// and the number of action rows is the number of matching actions.
pub proof fn lemma_rows_well_formed(
    groups: Seq<(usize, Seq<usize>)>,
    query: Seq<char>,
    action_labels: Seq<Seq<char>>,
    category_labels: Seq<Seq<char>>,
    current: Option<usize>,
    g: nat,
)
    requires
        g <= groups.len(),
        items_upto(groups, query, action_labels, category_labels, g) <= usize::MAX,
    ensures
        item_count(rows_upto(groups, query, action_labels, category_labels, current, g))
            == items_upto(groups, query, action_labels, category_labels, g),
        rows_upto(groups, query, action_labels, category_labels, current, g).len() == 0
            <==> items_upto(groups, query, action_labels, category_labels, g) == 0,
        rows_numbered(rows_upto(groups, query, action_labels, category_labels, current, g)),
        first_header_at_top(rows_upto(groups, query, action_labels, category_labels, current, g)),
    decreases g,
{
    if g > 0 {
        lemma_items_upto_monotonic(groups, query, action_labels, category_labels, (g - 1) as nat, g);
        lemma_rows_well_formed(groups, query, action_labels, category_labels, current, (g - 1) as nat);
        let prev = rows_upto(groups, query, action_labels, category_labels, current, (g - 1) as nat);
        let m = group_matches(groups, query, action_labels, category_labels, g - 1);
        let before = items_upto(groups, query, action_labels, category_labels, (g - 1) as nat);
        if m.len() > 0 {
            let header = seq![PickerRow::Header { category: groups[g - 1].0, first: before == 0 }];
            let items = item_rows(m, before, current);
            let rows = prev + header + items;
            lemma_item_count_append(prev, header);
            lemma_item_count_append(prev + header, items);
            lemma_item_count_items(m, before, current);
            assert(item_count(header) == 0) by {
                assert(header.drop_last() =~= Seq::<PickerRow>::empty());
                assert(item_count(header.drop_last()) == 0);
                assert(!(header.last() is Item));
            }
            assert forall|p: int| 0 <= p < rows.len() && #[trigger] rows[p] is Item implies
                rows[p]->row_id == item_count(rows.take(p)) by {
                if p < prev.len() {
                    assert(rows.take(p) == prev.take(p));
                    assert(rows[p] == prev[p]);
                } else {
                    assert(p > prev.len());
                    let k = p - prev.len() - 1;
                    assert(rows.take(p) == (prev + header) + items.take(k));
                    lemma_item_count_append(prev + header, items.take(k));
                    lemma_item_count_items(m.take(k), before, current);
                    assert(items.take(k) == item_rows(m.take(k), before, current));
                }
            }
            assert forall|p: int| 0 <= p < rows.len() && #[trigger] rows[p] is Header implies
                (rows[p]->first <==> p == 0) by {
                if p < prev.len() {
                    assert(rows[p] == prev[p]);
                } else {
                    assert(p == prev.len());
                }
            }
        }
    }
}


/// Unicode's `White_Space` property: the white space that `str::trim` strips.
pub open spec fn is_white_space(c: char) -> bool {
    let u = c as u32;
    ||| 0x09 <= u <= 0x0d
    ||| u == 0x20
    ||| u == 0x85
    ||| u == 0xa0
    ||| u == 0x1680
    ||| 0x2000 <= u <= 0x200a
    ||| u == 0x2028
    ||| u == 0x2029
    ||| u == 0x202f
    ||| u == 0x205f
    ||| u == 0x3000
}

/// `s` without its leading white space.
pub open spec fn trim_start(s: Seq<char>) -> Seq<char>
    decreases s.len(),
{
    if s.len() > 0 && is_white_space(s[0]) {
        trim_start(s.drop_first())
    } else {
        s
    }
}

/// `s` without its trailing white space.
pub open spec fn trim_end(s: Seq<char>) -> Seq<char>
    decreases s.len(),
{
    if s.len() > 0 && is_white_space(s.last()) {
        trim_end(s.drop_last())
    } else {
        s
    }
}

/// `s` without its leading and trailing white space.
pub open spec fn spec_trim(s: Seq<char>) -> Seq<char> {
    trim_end(trim_start(s))
}

/// Names what `str::to_lowercase` returns: the Unicode lowercase mapping of
/// the string, in which each character maps by Unicode's case tables and a
/// capital sigma maps to final `ς` at the end of a word and to `σ` elsewhere.
pub uninterp spec fn lowercased(s: Seq<char>) -> Seq<char>;

/// Whether `c` has Unicode's `White_Space` property.
pub fn white_space(c: char) -> (r: bool)
    ensures
        r == is_white_space(c),
{
    let u = c as u32;
    (0x09 <= u && u <= 0x0d) || u == 0x20 || u == 0x85 || u == 0xa0 || u == 0x1680 || (0x2000 <= u
        && u <= 0x200a) || u == 0x2028 || u == 0x2029 || u == 0x202f || u == 0x205f || u == 0x3000
}

/// `s` without its leading and trailing white space, as `str::trim` gives it.
pub fn trim(s: &str) -> (r: &str)
    ensures
        r@ == spec_trim(s@),
{
    let n = s.unicode_len();
    let mut start: usize = 0;
    assert(s@.subrange(0, n as int) =~= s@);
    while start < n && white_space(s.get_char(start))
        invariant
            n == s@.len(),
            start <= n,
            trim_start(s@) == trim_start(s@.subrange(start as int, n as int)),
        decreases n - start,
    {
        let ghost t = s@.subrange(start as int, n as int);
        assert(t.drop_first() =~= s@.subrange(start + 1, n as int));
        start = start + 1;
    }
    let ghost rest = s@.subrange(start as int, n as int);
    assert(trim_start(rest) == rest);
    let mut end: usize = n;
    while end > start && white_space(s.get_char(end - 1))
        invariant
            n == s@.len(),
            start <= end <= n,
            rest == s@.subrange(start as int, n as int),
            trim_end(rest) == trim_end(s@.subrange(start as int, end as int)),
        decreases end - start,
    {
        let ghost t = s@.subrange(start as int, end as int);
        assert(t.drop_last() =~= s@.subrange(start as int, end - 1));
        end = end - 1;
    }
    s.substring_char(start, end)
}

/// Calls `str::to_lowercase`; its result is named by `lowercased`.
#[verifier::external_body]
fn to_lowercase(s: &str) -> (r: String)
    ensures
        r@ == lowercased(s@),
{
    s.to_lowercase()
}

/// The search text as the picker matches it: trimmed, then lower-cased.
pub fn normalize_query(raw: &str) -> (q: String)
    ensures
        q@ == lowercased(spec_trim(raw@)),
{
    to_lowercase(trim(raw))
}

/// A (localized) label as the picker matches it: lower-cased.
pub fn normalize_label(label: &str) -> (l: String)
    ensures
        l@ == lowercased(label@),
{
    to_lowercase(label)
}

/// Whether the list must scroll back to the top: the normalized query
/// changed since the last render. `last` is updated to `query`.
pub fn query_changed(last: &mut String, query: &str) -> (changed: bool)
    ensures
        changed == (old(last)@ != query@),
        final(last)@ == query@,
{
    let changed = !crate::text::str_eq(last.as_str(), query);
    if changed {
        *last = query.to_owned();
    }
    changed
}

} // verus!
