//! The collection of normalized records and its ranking views.
//!
//! The collection is a plain ordered sequence in insertion order. It
//! never re-derives metrics and never reorders its storage: a view
//! renders a fresh sequence of display lines under the requested
//! ranking policy.
//!
//! Ranking conventions, fixed here once for every consumer:
//! leanness ranks ascending (lower is better) and protein per dollar
//! ranks descending (higher is better); both are stable, ties keeping
//! insertion order. Amounts render with exactly two fraction digits,
//! and per-dollar values are rounded to hundredths, halves away from
//! zero.

use vstd::prelude::*;
use crate::eng::{GroceryItem, item_wf, lemma_amount_mul_bound, lemma_item_ratio_bounds};
use crate::ratio::{Ratio, ratio_eqv, ratio_wf, ratio_zero};
use crate::sort::{
    idx_view, keys_wf, lemma_sort_stable, lemma_sort_upto_props, precedes, sort_indices, sort_upto,
};
use crate::text::{fixed2_str, fmt_fixed2, round2, round_to_hundredths};

verus! {

/// The ranking policy a view is requested under.
#[derive(Clone, Copy, Debug, PartialEq, Eq, Structural)]
pub enum ViewMode {
    /// Add-order, no ranking.
    Insertion,
    /// Ascending by leanness: lower is better.
    ByLeanness,
    /// Descending by protein per dollar: higher is better.
    ByProteinPerDollar,
}

/// The ranking key of a record under a mode (insertion order uses a
/// constant key, so only the index tie-break decides).
pub open spec fn mode_key(item: GroceryItem, mode: ViewMode) -> Ratio {
    match mode {
        ViewMode::Insertion => ratio_zero(),
        ViewMode::ByLeanness => item.leanness,
        ViewMode::ByProteinPerDollar => item.ppd,
    }
}

/// Whether the mode ranks its key ascending.
pub open spec fn mode_asc(mode: ViewMode) -> bool {
    match mode {
        ViewMode::ByProteinPerDollar => false,
        _ => true,
    }
}

/// The ranking keys of a whole sequence of records.
pub open spec fn mode_keys(items: Seq<GroceryItem>, mode: ViewMode) -> Seq<Ratio> {
    items.map_values(|item: GroceryItem| mode_key(item, mode))
}

/// The order a view presents the records in: the identity for
/// insertion order, the unique stable ranking permutation otherwise.
pub open spec fn view_order(items: Seq<GroceryItem>, mode: ViewMode) -> Seq<int> {
    match mode {
        ViewMode::Insertion => Seq::new(items.len(), |i: int| i),
        _ => sort_upto(mode_keys(items, mode), mode_asc(mode), items.len() as int),
    }
}

/// The insertion-order line: totals over all servings, then the cost.
pub open spec fn insertion_line(item: GroceryItem) -> Seq<char> {
    item.name@ + ": "@ + fixed2_str(round2(item.protein * item.servings, 10000)) + " g protein, "@
        + fixed2_str(round2(item.calories * item.servings, 10000)) + " kCal, $"@ + fixed2_str(
        item.cost as int,
    )
}

/// The leanness line: per-serving calories over per-serving protein.
pub open spec fn leanness_line(item: GroceryItem) -> Seq<char> {
    item.name@ + " - "@ + fixed2_str(item.calories as int) + " kCal / "@ + fixed2_str(
        item.protein as int,
    ) + " g"@
}

/// The protein-per-dollar line: the metric rounded to hundredths.
pub open spec fn ppd_line(item: GroceryItem) -> Seq<char> {
    item.name@ + ": "@ + fixed2_str(round2(item.ppd.num as int, item.ppd.den as int))
        + " g per $1"@
}

/// The display line of one record under a mode.
pub open spec fn line_of(item: GroceryItem, mode: ViewMode) -> Seq<char> {
    match mode {
        ViewMode::Insertion => insertion_line(item),
        ViewMode::ByLeanness => leanness_line(item),
        ViewMode::ByProteinPerDollar => ppd_line(item),
    }
}

/// Law: every view presents every stored record exactly once. The
/// view order has one place per record, every place holds an in-range
/// index, and every index appears; in particular the view of an empty
/// collection is empty under every mode.
pub proof fn lemma_view_order_complete(items: Seq<GroceryItem>, mode: ViewMode)
    requires
        forall|m: int| 0 <= m < items.len() ==> item_wf(#[trigger] items[m]),
    ensures
        view_order(items, mode).len() == items.len(),
        forall|k: int|
            0 <= k < items.len() ==> 0 <= #[trigger] view_order(items, mode)[k] < items.len(),
        forall|v: int| 0 <= v < items.len() ==> #[trigger] view_order(items, mode).contains(v),
{
    match mode {
        ViewMode::Insertion => {
            assert forall|v: int| 0 <= v < items.len() implies #[trigger] view_order(
                items,
                mode,
            ).contains(v) by {
                assert(view_order(items, mode)[v] == v);
            }
        },
        _ => {
            let keys = mode_keys(items, mode);
            assert forall|m: int| 0 <= m < keys.len() implies ratio_wf(#[trigger] keys[m]) by {
                lemma_item_ratio_bounds(items[m]);
            }
            lemma_sort_upto_props(keys, mode_asc(mode), items.len() as int);
        },
    }
}

/// Law: a view is ranked. Whichever records stand at two places of
/// the view order, the earlier one precedes the later under the
/// mode's policy: a strictly better key value (lower leanness,
/// higher protein per dollar) or an equal key value and an earlier
/// insertion. For the insertion view the keys are constant, so this
/// says the places ascend by insertion.
pub proof fn lemma_view_order_ranked(items: Seq<GroceryItem>, mode: ViewMode, p: int, q: int)
    requires
        forall|m: int| 0 <= m < items.len() ==> item_wf(#[trigger] items[m]),
        0 <= p < q < items.len(),
    ensures
        precedes(
            mode_keys(items, mode),
            mode_asc(mode),
            view_order(items, mode)[p],
            view_order(items, mode)[q],
        ),
{
    match mode {
        ViewMode::Insertion => {
            assert(view_order(items, mode)[p] == p);
            assert(view_order(items, mode)[q] == q);
        },
        _ => {
            let keys = mode_keys(items, mode);
            assert forall|m: int| 0 <= m < keys.len() implies ratio_wf(#[trigger] keys[m]) by {
                lemma_item_ratio_bounds(items[m]);
            }
            lemma_sort_upto_props(keys, mode_asc(mode), items.len() as int);
        },
    }
}

/// Law: ranking is stable. If two stored records carry equal key
/// values under a mode, the record added first keeps its place before
/// the other in that mode's view order.
pub proof fn lemma_view_order_stable(
    items: Seq<GroceryItem>,
    mode: ViewMode,
    i: int,
    j: int,
    pi: int,
    pj: int,
)
    requires
        forall|m: int| 0 <= m < items.len() ==> item_wf(#[trigger] items[m]),
        0 <= i < j < items.len(),
        ratio_eqv(mode_key(items[i], mode), mode_key(items[j], mode)),
        0 <= pi < items.len(),
        0 <= pj < items.len(),
        view_order(items, mode)[pi] == i,
        view_order(items, mode)[pj] == j,
    ensures
        pi < pj,
{
    match mode {
        ViewMode::Insertion => {
        },
        _ => {
            let keys = mode_keys(items, mode);
            assert forall|m: int| 0 <= m < keys.len() implies ratio_wf(#[trigger] keys[m]) by {
                lemma_item_ratio_bounds(items[m]);
            }
            lemma_sort_stable(keys, mode_asc(mode), items.len() as int, i, j, pi, pj);
        },
    }
}

/// Law: the insertion view presents the records in add order, place
/// by place.
pub proof fn lemma_insertion_view_is_add_order(items: Seq<GroceryItem>, k: int)
    requires
        0 <= k < items.len(),
    ensures
        view_order(items, ViewMode::Insertion)[k] == k,
{
}

/// Renders the display line of one well-formed record under a mode.
pub fn render_line(item: &GroceryItem, mode: ViewMode) -> (r: String)
    requires
        item_wf(*item),
    ensures
        r@ == line_of(*item, mode),
{
    proof {
        lemma_item_ratio_bounds(*item);
        lemma_amount_mul_bound(item.protein as int, item.servings as int);
        lemma_amount_mul_bound(item.calories as int, item.servings as int);
    }
    match mode {
        ViewMode::Insertion => {
            let mut s = item.name.clone();
            s.append(": ");
            let p = fmt_fixed2(round_to_hundredths(item.protein * item.servings, 10000));
            s.append(p.as_str());
            s.append(" g protein, ");
            let c = fmt_fixed2(round_to_hundredths(item.calories * item.servings, 10000));
            s.append(c.as_str());
            s.append(" kCal, $");
            let d = fmt_fixed2(item.cost);
            s.append(d.as_str());
            s
        },
        ViewMode::ByLeanness => {
            let mut s = item.name.clone();
            s.append(" - ");
            let c = fmt_fixed2(item.calories);
            s.append(c.as_str());
            s.append(" kCal / ");
            let p = fmt_fixed2(item.protein);
            s.append(p.as_str());
            s.append(" g");
            s
        },
        ViewMode::ByProteinPerDollar => {
            let mut s = item.name.clone();
            s.append(": ");
            let v = fmt_fixed2(round_to_hundredths(item.ppd.num, item.ppd.den));
            s.append(v.as_str());
            s.append(" g per $1");
            s
        },
    }
}

/// The accumulated records, in insertion order.
pub struct Collection {
    pub items: Vec<GroceryItem>,
}

/// Every stored record is well formed.
pub open spec fn collection_wf(c: Collection) -> bool {
    forall|i: int| 0 <= i < c.items@.len() ==> item_wf(#[trigger] c.items@[i])
}

impl Collection {
    /// An empty collection.
    pub fn new() -> (c: Collection)
        ensures
            collection_wf(c),
            c.items@.len() == 0,
    {
        Collection { items: Vec::new() }
    }

    /// The number of stored records.
    pub fn len(&self) -> (n: usize)
        ensures
            n == self.items@.len(),
    {
        self.items.len()
    }

    /// Appends one normalized record; nothing else changes, so
    /// insertion order is preserved.
    pub fn add(&mut self, item: GroceryItem)
        requires
            collection_wf(*old(self)),
            item_wf(item),
        ensures
            collection_wf(*final(self)),
            final(self).items@ == old(self).items@.push(item),
    {
        self.items.push(item);
    }

    /// Removes every record; there is no selective removal.
    pub fn clear(&mut self)
        ensures
            collection_wf(*final(self)),
            final(self).items@ == Seq::<GroceryItem>::empty(),
    {
        self.items.clear();
        proof {
            assert(self.items@ =~= Seq::<GroceryItem>::empty());
        }
    }

    /// Renders the records under the requested ranking policy, as a
    /// fresh sequence of display lines: the record at place `k` of the
    /// view order, rendered with that mode's line format. Storage is
    /// never reordered: the receiver is only read.
    pub fn view(&self, mode: ViewMode) -> (lines: Vec<String>)
        requires
            collection_wf(*self),
        ensures
            lines@.len() == self.items@.len(),
            forall|k: int|
                0 <= k < lines@.len() ==> #[trigger] lines@[k]@ == line_of(
                    self.items@[view_order(self.items@, mode)[k]],
                    mode,
                ),
    {
        let n = self.items.len();
        let mut lines: Vec<String> = Vec::new();
        match mode {
            ViewMode::Insertion => {
                let mut k: usize = 0;
                while k < n
                    invariant
                        collection_wf(*self),
                        n == self.items@.len(),
                        k <= n,
                        lines@.len() == k,
                        forall|m: int|
                            0 <= m < k ==> #[trigger] lines@[m]@ == line_of(
                                self.items@[m],
                                ViewMode::Insertion,
                            ),
                    decreases n - k,
                {
                    let line = render_line(&self.items[k], ViewMode::Insertion);
                    lines.push(line);
                    k += 1;
                }
            },
            _ => {
                let mut keys: Vec<Ratio> = Vec::new();
                let mut k: usize = 0;
                while k < n
                    invariant
                        collection_wf(*self),
                        mode != ViewMode::Insertion,
                        n == self.items@.len(),
                        k <= n,
                        keys@.len() == k,
                        forall|m: int|
                            0 <= m < k ==> #[trigger] keys@[m] == mode_key(self.items@[m], mode),
                    decreases n - k,
                {
                    let key = match mode {
                        ViewMode::ByProteinPerDollar => self.items[k].ppd,
                        _ => self.items[k].leanness,
                    };
                    keys.push(key);
                    k += 1;
                }
                proof {
                    assert(keys@ =~= mode_keys(self.items@, mode));
                    assert forall|m: int| 0 <= m < keys@.len() implies crate::ratio::ratio_wf(
                        #[trigger] keys@[m],
                    ) by {
                        lemma_item_ratio_bounds(self.items@[m]);
                    }
                }
                let asc = match mode {
                    ViewMode::ByProteinPerDollar => false,
                    _ => true,
                };
                let perm = sort_indices(&keys, asc);
                let ghost order = view_order(self.items@, mode);
                proof {
                    assert(order == idx_view(perm@));
                }
                let mut k: usize = 0;
                while k < n
                    invariant
                        collection_wf(*self),
                        n == self.items@.len(),
                        k <= n,
                        lines@.len() == k,
                        perm@.len() == n,
                        order == idx_view(perm@),
                        forall|m: int| 0 <= m < n ==> #[trigger] perm@[m] < n,
                        forall|m: int|
                            0 <= m < k ==> #[trigger] lines@[m]@ == line_of(
                                self.items@[order[m]],
                                mode,
                            ),
                    decreases n - k,
                {
                    let idx = perm[k];
                    let line = render_line(&self.items[idx], mode);
                    lines.push(line);
                    k += 1;
                }
            },
        }
        lines
    }
}

} // verus!
