use formula::term::{step, steps, OperatorType, Step};

#[test]
fn step_rule_for_each_pair() {
    assert_eq!(step(OperatorType::Plus, OperatorType::Plus), Step::Add);
    assert_eq!(step(OperatorType::Plus, OperatorType::Multiply), Step::Hold);
    assert_eq!(step(OperatorType::Multiply, OperatorType::Plus), Step::Scale);
    assert_eq!(step(OperatorType::Multiply, OperatorType::Multiply), Step::Hold);
}

#[test]
fn short_formulas_take_no_steps() {
    assert_eq!(steps(&vec![]), Vec::<Step>::new());
    assert_eq!(steps(&vec![OperatorType::Multiply]), Vec::<Step>::new());
}

#[test]
fn two_plus_terms_add() {
    assert_eq!(steps(&vec![OperatorType::Plus, OperatorType::Plus]), vec![Step::Add]);
}

#[test]
fn plus_then_multiply_holds_the_first_value() {
    assert_eq!(steps(&vec![OperatorType::Plus, OperatorType::Multiply]), vec![Step::Hold]);
}

#[test]
fn steps_follow_consecutive_pairs() {
    let ops = vec![
        OperatorType::Plus,
        OperatorType::Multiply,
        OperatorType::Plus,
        OperatorType::Multiply,
        OperatorType::Multiply,
    ];
    assert_eq!(steps(&ops), vec![Step::Hold, Step::Scale, Step::Hold, Step::Hold]);
}

use formula::term::{Expr, Formula, Term, TermType};

fn value(v: i64) -> Box<Expr<i64>> {
    Box::new(Expr::Value(v))
}

fn zero() -> Box<Expr<i64>> {
    Box::new(Expr::Zero)
}

#[test]
fn term_new_keeps_its_parts() {
    let t = Term::new(OperatorType::Multiply, TermType::Log { base: 10 }, 3, 2);
    assert_eq!(t.operator, OperatorType::Multiply);
    assert!(matches!(t.term_type, TermType::Log { base: 10 }));
    assert_eq!(t.coefficient, 3);
    assert_eq!(t.exponent, 2);
}

#[test]
fn formula_push_appends() {
    let mut f: Formula<i64> = Formula::new();
    assert_eq!(f.len(), 0);
    f.push(Term::new(OperatorType::Plus, TermType::Polymomial, 2, 0));
    f.push(Term::new(OperatorType::Multiply, TermType::Exp { base: 2 }, 1, 1));
    assert_eq!(f.len(), 2);
    assert_eq!(f.term(0).coefficient, 2);
    assert_eq!(f.term(1).operator, OperatorType::Multiply);
    assert_eq!(f.operators(), vec![OperatorType::Plus, OperatorType::Multiply]);
}

#[test]
fn empty_and_single_term_formulas_are_zero() {
    let mut f: Formula<i64> = Formula::new();
    assert_eq!(f.combine(&vec![]), Expr::Zero);
    f.push(Term::new(OperatorType::Plus, TermType::Polymomial, 1, 1));
    assert_eq!(f.combine(&vec![7]), Expr::Zero);
}

#[test]
fn plus_plus_formula_adds_only_the_first_value() {
    let mut f: Formula<i64> = Formula::new();
    f.push(Term::new(OperatorType::Plus, TermType::Polymomial, 2, 0));
    f.push(Term::new(OperatorType::Plus, TermType::Polymomial, 1, 2));
    assert_eq!(f.combine(&vec![2, 1]), Expr::Sum(zero(), Box::new(Expr::Sum(zero(), value(2)))));
}

#[test]
fn plus_multiply_formula_holds_its_value() {
    let mut f: Formula<i64> = Formula::new();
    f.push(Term::new(OperatorType::Plus, TermType::Polymomial, 2, 1));
    f.push(Term::new(OperatorType::Multiply, TermType::Polymomial, 1, 2));
    assert_eq!(f.combine(&vec![4, 4]), Expr::Zero);
}

#[test]
fn multiply_then_plus_multiplies_into_zero() {
    let ss = steps(&vec![OperatorType::Multiply, OperatorType::Plus, OperatorType::Plus]);
    assert_eq!(
        formula::term::accumulate(&ss, &vec![5, 6, 7]),
        Expr::Sum(
            Box::new(Expr::Product(zero(), Box::new(Expr::Product(zero(), value(5))))),
            Box::new(Expr::Sum(zero(), value(6))),
        )
    );
}

#[test]
fn held_value_joins_the_next_sum() {
    let ss = steps(&vec![OperatorType::Plus, OperatorType::Multiply, OperatorType::Plus, OperatorType::Plus]);
    assert_eq!(
        formula::term::accumulate(&ss, &vec![1, 2, 3, 4]),
        Expr::Sum(
            Box::new(Expr::Product(zero(), Box::new(Expr::Product(value(1), value(2))))),
            Box::new(Expr::Sum(zero(), value(3))),
        )
    );
}

#[test]
fn all_multiply_formula_is_zero() {
    let ss = steps(&vec![OperatorType::Multiply; 4]);
    assert_eq!(formula::term::accumulate(&ss, &vec![1, 2, 3, 4]), Expr::Zero);
}
