//! Item normalization: raw user entries, canonical records, and the
//! three derived metrics.
//!
//! Every quantity is an `i64` number of hundredths of a unit: grams of
//! protein, kilocalories, dollars, or servings. A magnitude cap of
//! [`MAX_AMOUNT`] (one million whole units) keeps every product that
//! the derived metrics form inside the `i64` range, so the derived
//! rationals are exact and no computation can overflow, divide by
//! zero, or produce a non-number.

use vstd::prelude::*;
use crate::ratio::{Ratio, ratio_wf, ratio_zero};
use crate::text::{fixed2_str, fmt_fixed2};

verus! {

/// Largest accepted magnitude for an entered amount, in hundredths:
/// one million whole units.
pub const MAX_AMOUNT: i64 = 100_000_000;

/// An entered amount must lie within `[-MAX_AMOUNT, MAX_AMOUNT]`.
pub open spec fn amount_ok(v: int) -> bool {
    -MAX_AMOUNT <= v <= MAX_AMOUNT
}

/// Products of two in-range amounts stay inside `i64`.
pub proof fn lemma_amount_mul_bound(a: int, b: int)
    by (nonlinear_arith)
    requires
        -100_000_000 <= a <= 100_000_000,
        -100_000_000 <= b <= 100_000_000,
    ensures
        -10_000_000_000_000_000 <= a * b <= 10_000_000_000_000_000,
{
}

/// Leanness: calories per gram of protein, as an exact rational.
/// Protein zero yields the zero sentinel; lower is better otherwise.
pub open spec fn spec_leanness(protein: i64, calories: i64) -> Ratio
    recommends
        amount_ok(protein as int),
        amount_ok(calories as int),
{
    if protein == 0 {
        ratio_zero()
    } else if protein > 0 {
        Ratio { num: calories, den: protein }
    } else {
        Ratio { num: (-calories) as i64, den: (-protein) as i64 }
    }
}

/// Protein per dollar: total protein over total cost, as an exact
/// rational; a cost of zero or less yields the zero sentinel.
/// Inputs are hundredths, so the value is `protein * servings`
/// over `100 * cost`.
pub open spec fn spec_ppd(protein: i64, cost: i64, servings: i64) -> Ratio
    recommends
        amount_ok(protein as int),
        amount_ok(cost as int),
        amount_ok(servings as int),
{
    if cost <= 0 {
        ratio_zero()
    } else {
        Ratio { num: (protein * servings) as i64, den: (100 * cost) as i64 }
    }
}

/// Leanness per dollar: leanness scaled by servings over cost, as an
/// exact rational; zero cost, zero calories or zero protein yields the
/// zero sentinel. Scales cancel, so the value is `calories * servings`
/// over `protein * cost`, with the denominator normalized positive.
pub open spec fn spec_lpd(protein: i64, calories: i64, cost: i64, servings: i64) -> Ratio
    recommends
        amount_ok(protein as int),
        amount_ok(calories as int),
        amount_ok(cost as int),
        amount_ok(servings as int),
{
    if cost == 0 || calories == 0 || protein == 0 {
        ratio_zero()
    } else if protein * cost > 0 {
        Ratio { num: (calories * servings) as i64, den: (protein * cost) as i64 }
    } else {
        Ratio { num: (-(calories * servings)) as i64, den: (-(protein * cost)) as i64 }
    }
}

/// A raw, form-scoped entry: the label and the four entered amounts,
/// in hundredths of a unit.
#[derive(Debug, Clone)]
pub struct UxItem {
    pub protein: i64,
    pub calories: i64,
    pub cost: i64,
    pub servings: i64,
    pub name: String,
}

impl Default for UxItem {
    /// A fresh form entry: an empty label, zero amounts, one serving.
    fn default() -> (d: UxItem)
        ensures
            d.protein == 0,
            d.calories == 0,
            d.cost == 0,
            d.servings == 100,
            d.name@ == Seq::<char>::empty(),
    {
        UxItem { protein: 0, calories: 0, cost: 0, servings: 100, name: String::new() }
    }
}

/// A canonical record: the entered amounts plus the derived metrics,
/// computed once at construction and immutable afterwards.
#[derive(Debug, Clone)]
pub struct GroceryItem {
    pub protein: i64,
    pub calories: i64,
    pub cost: i64,
    pub servings: i64,
    pub name: String,
    /// Calories per gram of protein; lower is better.
    pub leanness: Ratio,
    /// Protein per dollar; higher is better.
    pub ppd: Ratio,
    /// Leanness per dollar; computed but not surfaced in any view.
    pub lpd: Ratio,
}

/// A record is well formed when its amounts are in range and its
/// derived fields are exactly the derived metrics of its own amounts.
pub open spec fn item_wf(item: GroceryItem) -> bool {
    &&& amount_ok(item.protein as int)
    &&& amount_ok(item.calories as int)
    &&& amount_ok(item.cost as int)
    &&& amount_ok(item.servings as int)
    &&& item.leanness == spec_leanness(item.protein, item.calories)
    &&& item.ppd == spec_ppd(item.protein, item.cost, item.servings)
    &&& item.lpd == spec_lpd(item.protein, item.calories, item.cost, item.servings)
}

/// A well-formed record's derived ratios have positive denominators
/// and numerators and denominators small enough for rendering.
pub proof fn lemma_item_ratio_bounds(item: GroceryItem)
    requires
        item_wf(item),
    ensures
        ratio_wf(item.leanness),
        ratio_wf(item.ppd),
        ratio_wf(item.lpd),
        -10_000_000_000_000_000 <= item.leanness.num <= 10_000_000_000_000_000,
        1 <= item.leanness.den <= 10_000_000_000_000_000,
        -10_000_000_000_000_000 <= item.ppd.num <= 10_000_000_000_000_000,
        1 <= item.ppd.den <= 10_000_000_000_000_000,
        -10_000_000_000_000_000 <= item.lpd.num <= 10_000_000_000_000_000,
        1 <= item.lpd.den <= 10_000_000_000_000_000,
{
    lemma_amount_mul_bound(item.protein as int, item.servings as int);
    lemma_amount_mul_bound(item.calories as int, item.servings as int);
    lemma_amount_mul_bound(item.protein as int, item.cost as int);
    assert(item.protein != 0 && item.cost != 0 ==> item.protein * item.cost != 0)
        by (nonlinear_arith);
}

/// Computes leanness. The metric of a zero-protein entry is the zero
/// sentinel, not a true leanness; otherwise the result is exactly the
/// rational `calories / protein`.
pub fn calc_leanness(protein: i64, calories: i64) -> (r: Ratio)
    requires
        amount_ok(protein as int),
        amount_ok(calories as int),
    ensures
        r == spec_leanness(protein, calories),
        ratio_wf(r),
        protein == 0 ==> r == ratio_zero(),
        protein > 0 ==> r.num == calories && r.den == protein,
        protein != 0 ==> r.num * protein == calories * r.den,
{
    if protein == 0 {
        Ratio { num: 0, den: 1 }
    } else if protein > 0 {
        Ratio { num: calories, den: protein }
    } else {
        proof {
            assert((-calories) * protein == calories * (-protein)) by (nonlinear_arith);
        }
        Ratio { num: -calories, den: -protein }
    }
}

/// Computes protein per dollar. A cost of zero or less yields the zero
/// sentinel; otherwise the result is exactly the rational
/// `(protein * servings) / cost` of the whole-unit quantities.
pub fn calc_protein_per_dollar(protein: i64, cost: i64, servings: i64) -> (r: Ratio)
    requires
        amount_ok(protein as int),
        amount_ok(cost as int),
        amount_ok(servings as int),
    ensures
        r == spec_ppd(protein, cost, servings),
        ratio_wf(r),
        cost <= 0 ==> r == ratio_zero(),
        cost > 0 ==> r.num == protein * servings && r.den == 100 * cost,
{
    if cost <= 0 {
        Ratio { num: 0, den: 1 }
    } else {
        proof {
            lemma_amount_mul_bound(protein as int, servings as int);
        }
        Ratio { num: protein * servings, den: 100 * cost }
    }
}

/// Computes leanness per dollar. Zero cost or zero calories yields the
/// zero sentinel (as does zero protein, whose leanness is the zero
/// sentinel); otherwise the result is exactly the rational
/// `(leanness * servings) / cost` of the whole-unit quantities.
pub fn calc_leanness_per_dollar(protein: i64, calories: i64, cost: i64, servings: i64) -> (r: Ratio)
    requires
        amount_ok(protein as int),
        amount_ok(calories as int),
        amount_ok(cost as int),
        amount_ok(servings as int),
    ensures
        r == spec_lpd(protein, calories, cost, servings),
        ratio_wf(r),
        cost == 0 ==> r == ratio_zero(),
        calories == 0 ==> r == ratio_zero(),
        protein == 0 ==> r == ratio_zero(),
        cost != 0 && calories != 0 && protein != 0 ==> r.num * (protein * cost) == (calories
            * servings) * r.den,
{
    if cost == 0 || calories == 0 || protein == 0 {
        Ratio { num: 0, den: 1 }
    } else {
        proof {
            lemma_amount_mul_bound(calories as int, servings as int);
            lemma_amount_mul_bound(protein as int, cost as int);
            assert(protein * cost != 0) by (nonlinear_arith)
                requires
                    protein != 0,
                    cost != 0,
            ;
        }
        let num = calories * servings;
        let den = protein * cost;
        if den > 0 {
            Ratio { num, den }
        } else {
            proof {
                assert((-num) * den == num * (-den)) by (nonlinear_arith);
            }
            Ratio { num: -num, den: -den }
        }
    }
}

impl UxItem {
    /// Normalizes a raw entry into a canonical record, computing all
    /// three derived metrics once from the entry's own amounts.
    pub fn to_grocery(self) -> (item: GroceryItem)
        requires
            amount_ok(self.protein as int),
            amount_ok(self.calories as int),
            amount_ok(self.cost as int),
            amount_ok(self.servings as int),
        ensures
            item_wf(item),
            item.name == self.name,
            item.protein == self.protein,
            item.calories == self.calories,
            item.cost == self.cost,
            item.servings == self.servings,
            item.leanness == spec_leanness(self.protein, self.calories),
            item.ppd == spec_ppd(self.protein, self.cost, self.servings),
            item.lpd == spec_lpd(self.protein, self.calories, self.cost, self.servings),
    {
        let leanness = calc_leanness(self.protein, self.calories);
        let ppd = calc_protein_per_dollar(self.protein, self.cost, self.servings);
        let lpd = calc_leanness_per_dollar(self.protein, self.calories, self.cost, self.servings);
        GroceryItem {
            protein: self.protein,
            calories: self.calories,
            cost: self.cost,
            servings: self.servings,
            name: self.name,
            leanness,
            ppd,
            lpd,
        }
    }
}

/// The one-line summary of a record's entered amounts.
pub open spec fn display_line(item: GroceryItem) -> Seq<char> {
    item.name@ + " | P: "@ + fixed2_str(item.protein as int) + " Cal: "@ + fixed2_str(
        item.calories as int,
    ) + " Servings: "@ + fixed2_str(item.servings as int) + " - $"@ + fixed2_str(item.cost as int)
}

impl GroceryItem {
    /// Renders the record's one-line summary.
    pub fn to_display(&self) -> (r: String)
        ensures
            r@ == display_line(*self),
    {
        let mut s = self.name.clone();
        s.append(" | P: ");
        let p = fmt_fixed2(self.protein);
        s.append(p.as_str());
        s.append(" Cal: ");
        let c = fmt_fixed2(self.calories);
        s.append(c.as_str());
        s.append(" Servings: ");
        let v = fmt_fixed2(self.servings);
        s.append(v.as_str());
        s.append(" - $");
        let d = fmt_fixed2(self.cost);
        s.append(d.as_str());
        s
    }
}

/// The zero gate: whether any of the four entered amounts is zero, in
/// which case the caller must warn instead of normalizing the entry.
pub fn has_zero_field(protein: i64, calories: i64, cost: i64, servings: i64) -> (r: bool)
    ensures
        r <==> (protein == 0 || calories == 0 || cost == 0 || servings == 0),
{
    protein == 0 || calories == 0 || cost == 0 || servings == 0
}

/// The readiness gate: a label of at least two characters, positive
/// amounts, and at least one serving.
pub fn entry_ready(name: &str, protein: i64, calories: i64, cost: i64, servings: i64) -> (r: bool)
    ensures
        r <==> (name@.len() >= 2 && protein > 0 && calories > 0 && cost > 0 && servings >= 100),
{
    name.unicode_len() >= 2 && protein > 0 && calories > 0 && cost > 0 && servings >= 100
}

} // verus!
