// Derived-metric calculations on concrete entries. All amounts are in
// hundredths of a unit, so 3000 protein is 30 g, 500 cost is $5.00.

use protein_comparison_tool::eng::{
    calc_leanness, calc_leanness_per_dollar, calc_protein_per_dollar, entry_ready, has_zero_field,
    UxItem,
};
use protein_comparison_tool::ratio::Ratio;
use protein_comparison_tool::text::{fmt_fixed2, round_to_hundredths};

fn zero() -> Ratio {
    Ratio { num: 0, den: 1 }
}

#[test]
fn leanness_is_calories_per_protein() {
    // 165 kCal / 30 g = 5.5 kCal per g, as the exact rational.
    let l = calc_leanness(3000, 16500);
    assert_eq!(l, Ratio { num: 16500, den: 3000 });
}

#[test]
fn leanness_of_zero_protein_is_zero() {
    assert_eq!(calc_leanness(0, 16500), zero());
    assert_eq!(calc_leanness(0, 0), zero());
    assert_eq!(calc_leanness(0, -400), zero());
}

#[test]
fn leanness_of_negative_protein_normalizes_sign() {
    let l = calc_leanness(-3000, 16500);
    assert_eq!(l, Ratio { num: -16500, den: 3000 });
}

#[test]
fn ppd_is_total_protein_over_cost() {
    // (30 g x 4 servings) / $5 = 24 g per dollar.
    let p = calc_protein_per_dollar(3000, 500, 400);
    assert_eq!(p, Ratio { num: 1_200_000, den: 50_000 });
}

#[test]
fn ppd_of_nonpositive_cost_is_zero() {
    assert_eq!(calc_protein_per_dollar(3000, 0, 400), zero());
    assert_eq!(calc_protein_per_dollar(3000, -500, 400), zero());
}

#[test]
fn lpd_of_zero_cost_or_zero_calories_is_zero() {
    assert_eq!(calc_leanness_per_dollar(3000, 16500, 0, 400), zero());
    assert_eq!(calc_leanness_per_dollar(3000, 0, 500, 400), zero());
    assert_eq!(calc_leanness_per_dollar(0, 16500, 500, 400), zero());
}

#[test]
fn lpd_is_leanness_times_servings_over_cost() {
    // (5.5 x 4) / 5 = 4.4, as the exact rational 6600000 / 1500000.
    let d = calc_leanness_per_dollar(3000, 16500, 500, 400);
    assert_eq!(d, Ratio { num: 6_600_000, den: 1_500_000 });
}

#[test]
fn lpd_of_negative_cost_normalizes_sign() {
    // The cost guard is equality with zero, so a negative cost yields
    // a negative value with a positive denominator.
    let d = calc_leanness_per_dollar(3000, 16500, -500, 400);
    assert_eq!(d, Ratio { num: -6_600_000, den: 1_500_000 });
}

#[test]
fn to_grocery_copies_fields_and_derives_once() {
    let item = UxItem {
        protein: 3000,
        calories: 16500,
        cost: 500,
        servings: 400,
        name: "chicken".to_string(),
    }
    .to_grocery();
    assert_eq!(item.name, "chicken");
    assert_eq!(item.protein, 3000);
    assert_eq!(item.calories, 16500);
    assert_eq!(item.cost, 500);
    assert_eq!(item.servings, 400);
    assert_eq!(item.leanness, Ratio { num: 16500, den: 3000 });
    assert_eq!(item.ppd, Ratio { num: 1_200_000, den: 50_000 });
    assert_eq!(item.lpd, Ratio { num: 6_600_000, den: 1_500_000 });
}

#[test]
fn display_line_has_two_fraction_digits() {
    let item = UxItem {
        protein: 3000,
        calories: 16500,
        cost: 500,
        servings: 400,
        name: "chicken".to_string(),
    }
    .to_grocery();
    assert_eq!(
        item.to_display(),
        "chicken | P: 30.00 Cal: 165.00 Servings: 4.00 - $5.00"
    );
}

#[test]
fn display_line_of_negative_amount_is_signed() {
    let item = UxItem {
        protein: -3000,
        calories: 16500,
        cost: 500,
        servings: 400,
        name: "odd".to_string(),
    }
    .to_grocery();
    assert_eq!(item.to_display(), "odd | P: -30.00 Cal: 165.00 Servings: 4.00 - $5.00");
}

#[test]
fn zero_gate_fires_on_any_zero_field() {
    assert!(has_zero_field(0, 16500, 500, 400));
    assert!(has_zero_field(3000, 0, 500, 400));
    assert!(has_zero_field(3000, 16500, 0, 400));
    assert!(has_zero_field(3000, 16500, 500, 0));
    assert!(!has_zero_field(3000, 16500, 500, 400));
}

#[test]
fn readiness_gate_needs_label_and_positive_amounts() {
    assert!(entry_ready("ok", 3000, 16500, 500, 100));
    assert!(!entry_ready("x", 3000, 16500, 500, 100));
    assert!(!entry_ready("ok", 0, 16500, 500, 100));
    assert!(!entry_ready("ok", 3000, -1, 500, 100));
    assert!(!entry_ready("ok", 3000, 16500, 0, 100));
    assert!(!entry_ready("ok", 3000, 16500, 500, 99));
}

#[test]
fn default_entry_has_one_serving() {
    let d = UxItem::default();
    assert_eq!(d.name, "");
    assert_eq!(d.protein, 0);
    assert_eq!(d.calories, 0);
    assert_eq!(d.cost, 0);
    assert_eq!(d.servings, 100);
}

#[test]
fn fixed_point_rendering_is_exact() {
    assert_eq!(fmt_fixed2(0), "0.00");
    assert_eq!(fmt_fixed2(-5), "-0.05");
    assert_eq!(fmt_fixed2(12345), "123.45");
    assert_eq!(fmt_fixed2(100), "1.00");
    assert_eq!(fmt_fixed2(-100000099), "-1000000.99");
}

#[test]
fn rounding_is_half_away_from_zero() {
    assert_eq!(round_to_hundredths(1, 8), 13); // 0.125 -> 0.13
    assert_eq!(round_to_hundredths(-1, 8), -13);
    assert_eq!(round_to_hundredths(1, 3), 33);
    assert_eq!(round_to_hundredths(2, 3), 67);
    assert_eq!(round_to_hundredths(55, 10), 550);
}
