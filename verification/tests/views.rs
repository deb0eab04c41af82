// Collection views on concrete scenarios: ranking order, stability,
// insertion order, clearing, and the exact display-line formats.

use protein_comparison_tool::collection::{Collection, ViewMode};
use protein_comparison_tool::eng::UxItem;

fn item(name: &str, protein: i64, calories: i64, cost: i64, servings: i64) -> Collection {
    let mut c = Collection::new();
    c.add(
        UxItem {
            protein,
            calories,
            cost,
            servings,
            name: name.to_string(),
        }
        .to_grocery(),
    );
    c
}

fn add(c: &mut Collection, name: &str, protein: i64, calories: i64, cost: i64, servings: i64) {
    c.add(
        UxItem {
            protein,
            calories,
            cost,
            servings,
            name: name.to_string(),
        }
        .to_grocery(),
    );
}

#[test]
fn scenario_chicken_and_powder() {
    // chicken: 30 g, 165 kCal, $5.00, 4 servings -> leanness 5.5, ppd 24.0
    // powder: 25 g, 120 kCal, $20.00, 30 servings -> leanness 4.8, ppd 37.5
    let mut c = Collection::new();
    add(&mut c, "chicken", 3000, 16500, 500, 400);
    add(&mut c, "powder", 2500, 12000, 2000, 3000);

    let by_leanness = c.view(ViewMode::ByLeanness);
    assert_eq!(by_leanness.len(), 2);
    assert_eq!(by_leanness[0], "powder - 120.00 kCal / 25.00 g");
    assert_eq!(by_leanness[1], "chicken - 165.00 kCal / 30.00 g");

    let by_ppd = c.view(ViewMode::ByProteinPerDollar);
    assert_eq!(by_ppd[0], "powder: 37.50 g per $1");
    assert_eq!(by_ppd[1], "chicken: 24.00 g per $1");
}

#[test]
fn insertion_view_totals_servings() {
    let c = item("chicken", 3000, 16500, 500, 400);
    let lines = c.view(ViewMode::Insertion);
    assert_eq!(lines, vec!["chicken: 120.00 g protein, 660.00 kCal, $5.00"]);
}

#[test]
fn leanness_ties_keep_insertion_order() {
    // Both have leanness 2, in different representations: 2000/1000
    // and 4000/2000. The first added stays first.
    let mut c = Collection::new();
    add(&mut c, "first", 1000, 2000, 300, 100);
    add(&mut c, "second", 2000, 4000, 300, 100);
    let lines = c.view(ViewMode::ByLeanness);
    assert_eq!(lines[0], "first - 20.00 kCal / 10.00 g");
    assert_eq!(lines[1], "second - 40.00 kCal / 20.00 g");
}

#[test]
fn ppd_ties_keep_insertion_order() {
    // Equal protein per dollar: 10 g / $1 and 20 g / $2 per total.
    let mut c = Collection::new();
    add(&mut c, "first", 1000, 2000, 100, 100);
    add(&mut c, "second", 2000, 4000, 200, 100);
    let lines = c.view(ViewMode::ByProteinPerDollar);
    assert_eq!(lines[0], "first: 10.00 g per $1");
    assert_eq!(lines[1], "second: 10.00 g per $1");
}

#[test]
fn ranked_views_do_not_reorder_storage() {
    let mut c = Collection::new();
    add(&mut c, "x", 3000, 16500, 500, 400);
    add(&mut c, "y", 2500, 12000, 2000, 3000);
    add(&mut c, "z", 1000, 2000, 300, 100);
    // Ranked views first; the insertion view must still give add order.
    let _ = c.view(ViewMode::ByLeanness);
    let _ = c.view(ViewMode::ByProteinPerDollar);
    let lines = c.view(ViewMode::Insertion);
    assert_eq!(lines.len(), 3);
    assert!(lines[0].starts_with("x:"));
    assert!(lines[1].starts_with("y:"));
    assert!(lines[2].starts_with("z:"));
}

#[test]
fn clear_empties_every_view() {
    let mut c = Collection::new();
    add(&mut c, "x", 3000, 16500, 500, 400);
    add(&mut c, "y", 2500, 12000, 2000, 3000);
    c.clear();
    assert_eq!(c.len(), 0);
    assert!(c.view(ViewMode::Insertion).is_empty());
    assert!(c.view(ViewMode::ByLeanness).is_empty());
    assert!(c.view(ViewMode::ByProteinPerDollar).is_empty());
}

#[test]
fn ppd_display_rounds_half_away_from_zero() {
    // 0.25 g per serving, 1 serving, $2.00: 0.125 g per dollar,
    // displayed as 0.13.
    let c = item("trace", 25, 100, 200, 100);
    let lines = c.view(ViewMode::ByProteinPerDollar);
    assert_eq!(lines[0], "trace: 0.13 g per $1");
}

#[test]
fn zero_protein_ranks_with_sentinel_leanness() {
    // A zero-protein record carries the sentinel leanness 0 and so
    // sorts ahead of true leanness values; callers must not read the
    // sentinel as "best".
    let mut c = Collection::new();
    add(&mut c, "real", 1000, 2000, 300, 100);
    add(&mut c, "fluff", 0, 2000, 300, 100);
    let lines = c.view(ViewMode::ByLeanness);
    assert_eq!(lines[0], "fluff - 20.00 kCal / 0.00 g");
    assert_eq!(lines[1], "real - 20.00 kCal / 10.00 g");
}

#[test]
fn largest_amounts_still_rank_and_render() {
    // Every amount at the cap: one million units each.
    let mut c = Collection::new();
    add(&mut c, "big", 100_000_000, 100_000_000, 100_000_000, 100_000_000);
    let by_ppd = c.view(ViewMode::ByProteinPerDollar);
    assert_eq!(by_ppd[0], "big: 1000000.00 g per $1");
    let by_leanness = c.view(ViewMode::ByLeanness);
    assert_eq!(by_leanness[0], "big - 1000000.00 kCal / 1000000.00 g");
}
