use diplomacy::geo::standard_map;
use diplomacy::judge::OrderState::{Fails, Succeeds};
use diplomacy::judge::{AttackOutcome, MappedMainOrder, OrderOutcome, OrderState, Rulebook, Submission};

fn ord(s: &str) -> MappedMainOrder {
    s.parse()
        .unwrap_or_else(|e| panic!("'{}' should be a valid order: {:?}", s, e))
}

fn judge(cases: &[(&str, Option<OrderState>)]) {
    let map = standard_map();
    let orders: Vec<MappedMainOrder> = cases.iter().map(|(o, _)| ord(o)).collect();
    let submission = Submission::with_inferred_state(&map, orders);
    let outcome = submission.adjudicate(Rulebook::default());
    for (o, expected) in cases {
        let got = outcome.get(&ord(o)).expect("Order should be in results");
        if let Some(expected) = expected {
            assert_eq!(*expected, OrderState::from(&got), "{}", o);
        }
    }
}

fn judge_moves(cases: &[(&str, Option<AttackOutcome<usize>>)]) {
    let map = standard_map();
    let orders: Vec<MappedMainOrder> = cases.iter().map(|(o, _)| ord(o)).collect();
    let submission = Submission::with_inferred_state(&map, orders);
    let outcome = submission.adjudicate(Rulebook::default());
    for (o, expected) in cases {
        let got = outcome.get(&ord(o)).expect("Order should be in results");
        if let Some(expected) = expected {
            assert_eq!(OrderOutcome::Move(*expected), got, "{}", o);
        }
    }
}

#[test]
fn dipmath_fig16() {
    judge_moves(&[
        ("TUR: F aeg -> ion", Some(AttackOutcome::Succeeds)),
        ("TUR: F gre supports F aeg -> ion", None),
        ("AUS: F alb supports F aeg -> ion", None),
        ("ITA: A tun -> gre", Some(AttackOutcome::NoPath)),
        ("ITA: F ion convoys tun -> gre", None),
    ]);
}

#[test]
fn all_strengths_different() {
    judge(&[
        ("FRA: A bel supports A bur -> ruh", None),
        ("FRA: A hol Supports A bur -> ruh", None),
        ("FRA: A bur -> ruh", Some(Succeeds)),
        ("FRA: A mun supports A ruh -> bur", None),
        ("FRA: A mar -> bur", Some(Succeeds)),
        ("GER: A ruh -> bur", Some(Fails)),
    ]);
}

#[test]
fn all_strengths_different_no_movement() {
    judge(&[
        ("FRA: A bel supports A bur -> ruh", None),
        ("FRA: A bur -> ruh", Some(Fails)),
        ("FRA: A mun supports A ruh -> bur", None),
        ("FRA: A mar -> bur", Some(Fails)),
        ("GER: A ruh -> bur", Some(Fails)),
    ]);
}
