use games::rusthello::score::{Ratio, Score, Side};
use std::cmp::Ordering;

fn running(num: i64, den: i64) -> Score {
    Score::Running(Ratio::new(num, den).unwrap())
}

#[test]
fn ratio_needs_a_positive_denominator() {
    assert!(Ratio::new(1, 0).is_none());
    assert!(Ratio::new(1, -2).is_none());
    assert!(Ratio::new(0, i64::MIN).is_none());
    let r = Ratio::new(-3, 4).unwrap();
    assert_eq!((r.num, r.den), (-3, 4));
}

#[test]
fn ratios_are_equal_by_value() {
    let half = Ratio::new(1, 2).unwrap();
    let two_quarters = Ratio::new(2, 4).unwrap();
    let third = Ratio::new(1, 3).unwrap();
    assert!(half == two_quarters);
    assert!(half != third);
    assert!(half.same_value(&two_quarters));
    assert!(half.exceeds(&third));
    assert!(!third.exceeds(&half));
    assert!(!half.exceeds(&two_quarters));
    let big = Ratio::new(i64::MAX, 1).unwrap();
    let small = Ratio::new(i64::MIN, i64::MAX).unwrap();
    assert!(big.exceeds(&small));
    assert!(!small.exceeds(&big));
}

#[test]
fn scores_compare_with_operators() {
    assert!(Score::Ended(1) < Score::Ended(2));
    assert!(Score::Ended(2) >= Score::Ended(2));
    assert!(Score::Ended(2) == Score::Ended(2));
    assert!(running(1, 2) == running(3, 6));
    assert!(running(1, 2) != Score::Ended(0));
    assert!(running(1, 2) > Score::Ended(0));
    assert!(running(1, 2) < Score::Ended(1));
    assert!(running(-1, 2) > Score::Ended(-1));
    assert_eq!(running(1, 2).partial_cmp(&running(2, 3)), Some(Ordering::Less));
}

#[test]
fn results_compare_by_differential() {
    assert_eq!(Score::Ended(5).compare(&Score::Ended(-2)), Ordering::Greater);
    assert_eq!(Score::Ended(-2).compare(&Score::Ended(5)), Ordering::Less);
    assert_eq!(Score::Ended(7).compare(&Score::Ended(7)), Ordering::Equal);
}

#[test]
fn estimates_compare_by_value() {
    assert_eq!(running(1, 2).compare(&running(1, 3)), Ordering::Greater);
    assert_eq!(running(-1, 2).compare(&running(1, 3)), Ordering::Less);
    assert_eq!(running(2, 4).compare(&running(1, 2)), Ordering::Equal);
}

#[test]
fn draw_against_estimate() {
    assert_eq!(Score::Ended(0).compare(&running(-1, 5)), Ordering::Greater);
    assert_eq!(Score::Ended(0).compare(&running(0, 5)), Ordering::Greater);
    assert_eq!(Score::Ended(0).compare(&running(1, 5)), Ordering::Less);
    assert_eq!(running(1, 5).compare(&Score::Ended(0)), Ordering::Greater);
    assert_eq!(running(0, 5).compare(&Score::Ended(0)), Ordering::Less);
}

#[test]
fn decided_games_against_estimates() {
    assert!(Score::is_better(Score::Ended(1), running(9, 10)));
    assert!(!Score::is_better(running(9, 10), Score::Ended(1)));
    assert!(Score::is_better(running(-9, 10), Score::Ended(-1)));
    assert!(!Score::is_better(Score::Ended(-1), running(-9, 10)));
}

#[test]
fn dark_prefers_what_light_does_not() {
    let a = Score::Ended(3);
    let b = Score::Ended(1);
    assert!(Score::is_better_for(a, b, Side::Light));
    assert!(!Score::is_better_for(a, b, Side::Dark));
    assert!(Score::is_better_for(b, a, Side::Dark));
    assert!(Score::is_better_for(a, a, Side::Dark));
    assert!(!Score::is_better_for(a, a, Side::Light));
}

#[test]
fn estimates_order_as_their_values_do() {
    let parts: [(i64, i64); 9] =
        [(-45, 47), (-6, 8), (-3, 4), (0, 2), (0, 7), (1, 3), (2, 6), (4, 6), (45, 47)];
    for &(n1, d1) in parts.iter() {
        for &(n2, d2) in parts.iter() {
            let exact = (n1 * d2).cmp(&(n2 * d1));
            assert_eq!(running(n1, d1).compare(&running(n2, d2)), exact);
            let v1 = n1 as f64 / d1 as f64;
            let v2 = n2 as f64 / d2 as f64;
            if v1 > v2 {
                assert_eq!(exact, Ordering::Greater);
            }
            if v1 < v2 {
                assert_eq!(exact, Ordering::Less);
            }
        }
    }
}

#[test]
fn order_has_no_cycle() {
    let scores = [
        Score::Ended(-64),
        Score::Ended(-1),
        running(-45, 47),
        running(0, 2),
        Score::Ended(0),
        running(1, 1000),
        running(45, 47),
        Score::Ended(1),
        Score::Ended(64),
    ];
    for i in 0..scores.len() {
        for j in 0..scores.len() {
            let expected = i.cmp(&j);
            assert_eq!(scores[i].compare(&scores[j]), expected, "{} against {}", i, j);
            assert_eq!(Score::is_better(scores[i], scores[j]), i > j);
        }
    }
}
