use diplomacy::geo::{standard_map, ProvinceKey, RegionKey};
use diplomacy::judge::build::{Board, Ownerships, Submission as BuildSubmission};
use diplomacy::judge::build::OrderOutcome as BuildOutcome;
use diplomacy::judge::retreat::{Context as RetreatContext, DestStatus};
use diplomacy::judge::retreat::OrderOutcome as RetreatOutcome;
use diplomacy::judge::OrderState::{Fails, Succeeds};
use diplomacy::judge::{
    IllegalOrder, MappedBuildOrder, MappedMainOrder, MappedRetreatOrder, OrderOutcome,
    OrderState, Rulebook, Submission,
};
use diplomacy::{Nation, UnitPosition, UnitType};

fn ord(s: &str) -> MappedMainOrder {
    s.parse()
        .unwrap_or_else(|e| panic!("'{}' should be a valid order: {:?}", s, e))
}

fn retreat_ord(s: &str) -> MappedRetreatOrder {
    s.parse()
        .unwrap_or_else(|e| panic!("'{}' should be a valid order: {:?}", s, e))
}

fn build_ord(s: &str) -> MappedBuildOrder {
    s.parse()
        .unwrap_or_else(|e| panic!("'{}' should be a valid order: {:?}", s, e))
}

fn unit_pos(s: &str) -> UnitPosition {
    s.parse()
        .unwrap_or_else(|e| panic!("'{}' should be a valid unit position: {:?}", s, e))
}

fn reg(s: &str) -> RegionKey {
    s.parse()
        .unwrap_or_else(|e| panic!("'{}' should be a valid region: {:?}", s, e))
}

/// Adjudicates a main phase in which each ordered unit stands where its order says, and checks
/// the success or failure of the orders that have an expectation.
fn judge(cases: &[(&str, Option<OrderState>)]) {
    let map = standard_map();
    let orders: Vec<MappedMainOrder> = cases.iter().map(|(o, _)| ord(o)).collect();
    let submission = Submission::with_inferred_state(&map, orders);
    let outcome = submission.adjudicate(Rulebook::default());
    assert!(outcome.is_fixed_point(), "the outcomes should be a fixed point of the rules");
    assert!(!outcome.budget_spent(), "resolution should not run out of budget");
    for (o, expected) in cases {
        let order = ord(o);
        let got = outcome.get(&order).expect("Order should be in results");
        if let Some(expected) = expected {
            assert_eq!(*expected, OrderState::from(&got), "{}", o);
        }
    }
}

/// What a retreat order is expected to come to.
enum RetreatExpect {
    Is(RetreatOutcome<usize>),
    PreventedBy(&'static str),
}

use RetreatExpect::{Is, PreventedBy};

/// Adjudicates a main phase, then the retreat phase that follows it.
fn judge_retreat(main: &[(&str, Option<OrderState>)], retreats: &[(&str, Option<RetreatExpect>)]) {
    let map = standard_map();
    let orders: Vec<MappedMainOrder> = main.iter().map(|(o, _)| ord(o)).collect();
    let submission = Submission::with_inferred_state(&map, orders);
    let outcome = submission.adjudicate(Rulebook::default());
    assert!(outcome.is_fixed_point(), "the outcomes should be a fixed point of the rules");
    assert!(!outcome.budget_spent(), "resolution should not run out of budget");
    for (o, expected) in main {
        let got = outcome.get(&ord(o)).expect("Order should be in results");
        if let Some(expected) = expected {
            assert_eq!(*expected, OrderState::from(&got), "{}", o);
        }
    }
    let start = outcome.to_retreat_start();
    let retreat_orders: Vec<MappedRetreatOrder> = retreats.iter().map(|(o, _)| retreat_ord(o)).collect();
    let context = RetreatContext::new(&start, retreat_orders.clone());
    let result = context.resolve();
    for (o, expected) in retreats {
        let got = result.get(&retreat_ord(o)).expect("Order should be in results");
        match expected {
            Some(Is(x)) => assert_eq!(*x, got, "{}", o),
            Some(PreventedBy(p)) => {
                let preventer = retreat_ord(p);
                let index = retreat_orders
                    .iter()
                    .position(|x| *x == preventer)
                    .expect("Preventing order should be among the orders");
                assert_eq!(RetreatOutcome::Prevented(index), got, "{}", o);
            }
            None => {}
        }
    }
}

/// Who controlled each home supply center at the start of the game.
fn initial_ownerships() -> Ownerships {
    let mut ownerships = Ownerships::new();
    let homes = vec![
        ("ENG", vec!["edi", "lvp", "lon"]),
        ("FRA", vec!["bre", "par", "mar"]),
        ("GER", vec!["kie", "ber", "mun"]),
        ("ITA", vec!["ven", "rom", "nap"]),
        ("AUS", vec!["vie", "bud", "tri"]),
        ("RUS", vec!["stp", "mos", "war", "sev"]),
        ("TUR", vec!["con", "ank", "smy"]),
    ];
    for (nation, provinces) in homes {
        for province in provinces {
            ownerships.insert(ProvinceKey::from(province), Nation::from(nation));
        }
    }
    ownerships
}

/// A board with the given units on it.
fn board(units: &[&str]) -> Board {
    units
        .iter()
        .fold(Board::empty(), |b, u| b.with_unit(unit_pos(u)))
}

/// Adjudicates a build phase after the first year, checks the outcome of the orders that have
/// an expectation, and returns the final units by nation and the units lost to civil disorder.
fn judge_build(
    world: Board,
    cases: &[(&str, Option<BuildOutcome>)],
) -> (Vec<(Nation, Vec<(UnitType, RegionKey)>)>, Vec<(UnitType, RegionKey)>) {
    let map = standard_map();
    let last_time = initial_ownerships();
    let orders: Vec<MappedBuildOrder> = cases.iter().map(|(o, _)| build_ord(o)).collect();
    let submission = BuildSubmission::new(&map, &last_time, &world, orders);
    let outcome = submission.adjudicate();
    for (o, expected) in cases {
        let got = outcome.get(&build_ord(o)).expect("Order should be in results");
        if let Some(expected) = expected {
            assert_eq!(*expected, got, "{}", o);
        }
    }
    let civil_disorder = outcome
        .to_civil_disorder()
        .into_iter()
        .map(|p| (p.unit.unit_type(), p.region))
        .collect();
    (outcome.final_units_by_nation().clone(), civil_disorder)
}

/// https://webdiplomacy.net/doc/DATC_v3_0.html#6.A.1
#[test]
fn t6a01_move_to_non_neighbor_fails() {
    judge(&[
        ("ENG: F nth -> pic", Some(Fails)),
    ]);
}

/// https://webdiplomacy.net/doc/DATC_v3_0.html#6.A.2
#[test]
fn t6a02_move_army_to_sea() {
    judge(&[
        ("ENG: A lvp -> iri", Some(Fails)),
    ]);
}

/// https://webdiplomacy.net/doc/DATC_v3_0.html#6.A.3
#[test]
fn t6a03_move_fleet_to_land() {
    judge(&[
        ("GER: F kie -> mun", Some(Fails)),
    ]);
}

/// https://webdiplomacy.net/doc/DATC_v3_0.html#6.A.4
#[test]
fn t6a04_move_to_own_sector() {
    judge(&[
        ("GER: F kie -> kie", Some(Fails)),
    ]);
}

/// https://webdiplomacy.net/doc/DATC_v3_0.html#6.A.5
#[test]
fn t6a05_move_to_own_sector_with_convoy() {
    judge(&[
        ("ENG: F nth convoys yor -> yor", None),
        ("ENG: A yor -> yor", Some(Fails)),
        ("ENG: A lvp supports A yor -> yor", Some(Succeeds)),
        ("GER: F lon -> yor", Some(Succeeds)),
        ("GER: A wal supports F lon -> yor", Some(Succeeds)),
    ]);
}

/// https://webdiplomacy.net/doc/DATC_v3_0.html#6.A.7
#[test]
fn t6a07_only_armies_can_be_convoyed() {
    judge(&[
        ("ENG: F lon -> bel", Some(Fails)),
        ("ENG: F nth convoys lon -> bel", None),
    ]);
}

/// https://webdiplomacy.net/doc/DATC_v3_0.html#6.A.8
#[test]
fn t6a08_support_to_hold_yourself_is_not_possible() {
    judge(&[
        ("ITA: A ven -> tri", Some(Succeeds)),
        ("ITA: A tyr supports A ven -> tri", Some(Succeeds)),
        ("AUS: F tri supports F tri", Some(Fails)),
    ]);
}

/// https://webdiplomacy.net/doc/DATC_v3_0.html#6.A.9
#[test]
fn t6a09_fleets_must_follow_coast_if_not_on_sea() {
    judge(&[
        ("ITA: F rom -> ven", Some(Fails)),
    ]);
}

/// https://webdiplomacy.net/doc/DATC_v3_0.html#6.A.10
#[test]
fn t6a10_support_on_unreachable_destination_not_possible() {
    judge(&[
        ("AUS: A ven holds", Some(Succeeds)),
        ("ITA: F rom supports A apu -> ven", None),
        ("ITA: A apu -> ven", Some(Fails)),
    ]);
}

/// https://webdiplomacy.net/doc/DATC_v3_0.html#6.A.11
#[test]
fn t6a11_simple_bounce() {
    judge(&[
        ("AUS: A vie -> tyr", Some(Fails)),
        ("ITA: A ven -> tyr", Some(Fails)),
    ]);
}

/// https://webdiplomacy.net/doc/DATC_v3_0.html#6.A.12
#[test]
fn t6a12_bounce_of_three_units() {
    judge(&[
        ("AUS: A vie -> tyr", Some(Fails)),
        ("ITA: A ven -> tyr", Some(Fails)),
        ("GER: A mun -> tyr", Some(Fails)),
    ]);
}

/// https://webdiplomacy.net/doc/DATC_v3_0.html#6.B.1
#[test]
fn t6b01_moving_without_required_coast_fails() {
    judge(&[
        ("FRA: F por -> spa", Some(Fails)),
    ]);
}

/// https://webdiplomacy.net/doc/DATC_v3_0.html#6.B.2
#[test]
fn t6b02_moving_with_unspecified_coast_when_coast_is_not_necessary() {
    judge(&[
        ("FRA: F gas -> spa", Some(Fails)),
    ]);
}

/// https://webdiplomacy.net/doc/DATC_v3_0.html#6.B.3
#[test]
fn t6b03_moving_with_wrong_coast_when_coast_is_not_necessary() {
    judge(&[
        ("FRA: F gas -> spa(sc)", Some(Fails)),
    ]);
}

/// https://webdiplomacy.net/doc/DATC_v3_0.html#6.B.4
#[test]
fn t6b04_support_to_unreachable_coast_allowed() {
    judge(&[
        ("FRA: F gas -> spa(nc)", Some(Succeeds)),
        ("FRA: F mar supports F gas -> spa(nc)", None),
        ("ITA: F wes -> spa(sc)", Some(Fails)),
    ]);
}

/// https://webdiplomacy.net/doc/DATC_v3_0.html#6.B.5
#[test]
fn t6b05_support_from_unreachable_coast_not_allowed() {
    judge(&[
        ("FRA: F mar -> lyo", Some(Fails)),
        ("FRA: F spa(nc) supports F mar -> lyo", None),
        ("ITA: F lyo holds", Some(Succeeds)),
    ]);
}

/// https://webdiplomacy.net/doc/DATC_v3_0.html#6.B.6
#[test]
fn t6b06_support_can_be_cut_with_other_coast() {
    judge(&[
        ("ENG: F iri supports F nao -> mao", Some(Succeeds)),
        ("ENG: F nao -> mao", Some(Succeeds)),
        ("FRA: F spa(nc) supports F mao", Some(Fails)),
        ("FRA: F mao holds", Some(Fails)),
        ("ITA: F lyo -> spa(sc)", Some(Fails)),
    ]);
}

/// https://webdiplomacy.net/doc/DATC_v3_0.html#6.B.9
#[test]
fn t6b09_supporting_with_wrong_coast() {
    judge(&[
        ("FRA: F por Supports F mao -> spa(nc)", None),
        ("FRA: F mao -> spa(sc)", Some(Fails)),
        ("ITA: F lyo Supports F wes -> spa(sc)", None),
        ("ITA: F wes -> spa(sc)", Some(Succeeds)),
    ]);
}

/// https://webdiplomacy.net/doc/DATC_v3_0.html#6.B.13
#[test]
fn t6b13_coastal_crawl_not_allowed() {
    judge(&[
        ("TUR: F bul(sc) -> con", Some(Fails)),
        ("TUR: F con -> bul(ec)", Some(Fails)),
    ]);
}

/// https://webdiplomacy.net/doc/DATC_v3_0.html#6.C.1
#[test]
fn t6c01_three_army_circular_movement_succeeds() {
    judge(&[
        ("TUR: F ank -> con", Some(Succeeds)),
        ("TUR: A con -> smy", Some(Succeeds)),
        ("TUR: A smy -> ank", Some(Succeeds)),
    ]);
}

/// https://webdiplomacy.net/doc/DATC_v3_0.html#6.C.2
#[test]
fn t6c02_three_army_circular_movement_with_support() {
    judge(&[
        ("TUR: F ank -> con", Some(Succeeds)),
        ("TUR: A con -> smy", Some(Succeeds)),
        ("TUR: A smy -> ank", Some(Succeeds)),
        ("TUR: A bul supports F ank -> con", Some(Succeeds)),
    ]);
}

/// https://webdiplomacy.net/doc/DATC_v3_0.html#6.C.3
#[test]
fn t6c03_a_disrupted_three_army_circular_movement() {
    judge(&[
        ("TUR: F ank -> con", Some(Fails)),
        ("TUR: A bul -> con", Some(Fails)),
        ("TUR: A smy -> ank", Some(Fails)),
        ("TUR: A con -> smy", Some(Fails)),
    ]);
}

/// https://webdiplomacy.net/doc/DATC_v3_0.html#6.C.4
#[test]
fn t6c04_a_circular_movement_with_attacked_convoy() {
    judge(&[
        ("AUS: A tri -> ser", Some(Succeeds)),
        ("AUS: A ser -> bul", Some(Succeeds)),
        ("TUR: A bul -> tri", Some(Succeeds)),
        ("TUR: F aeg convoys bul -> tri", None),
        ("TUR: F ion convoys bul -> tri", None),
        ("TUR: F adr convoys bul -> tri", None),
        ("ITA: F nap -> ion", Some(Fails)),
    ]);
}

/// https://webdiplomacy.net/doc/DATC_v3_0.html#6.C.5
#[test]
fn t6c05_a_disrupted_circular_movement_due_to_dislodged_convoy() {
    judge(&[
        ("AUS: A tri -> ser", Some(Fails)),
        ("AUS: A ser -> bul", Some(Fails)),
        ("TUR: A bul -> tri", Some(Fails)),
        ("TUR: F aeg convoys bul -> tri", None),
        ("TUR: F ion convoys bul -> tri", None),
        ("TUR: F adr convoys bul -> tri", None),
        ("ITA: F nap -> ion", Some(Succeeds)),
        ("ITA: F tun supports F nap -> ion", None),
    ]);
}

/// https://webdiplomacy.net/doc/DATC_v3_0.html#6.C.6
#[test]
fn t6c06_two_armies_with_two_convoys() {
    judge(&[
        ("ENG: F nth convoys lon -> bel", None),
        ("ENG: A lon -> bel", Some(Succeeds)),
        ("FRA: F eng convoys bel -> lon", None),
        ("FRA: A bel -> lon", Some(Succeeds)),
    ]);
}

/// https://webdiplomacy.net/doc/DATC_v3_0.html#6.C.7
#[test]
fn t6c07_disrupted_unit_swap() {
    judge(&[
        ("ENG: F nth convoys lon -> bel", None),
        ("ENG: A lon -> bel", Some(Fails)),
        ("FRA: F eng convoys bel -> lon", None),
        ("FRA: A bel -> lon", Some(Fails)),
        ("FRA: A bur -> bel", Some(Fails)),
    ]);
}

/// https://webdiplomacy.net/doc/DATC_v3_0.html#6.C.8
#[test]
fn t6c08_no_self_dislodgement_in_disrupted_circular_movement() {
    judge(&[
        ("TUR: F con -> bla", Some(Fails)),
        ("TUR: A bul -> con", Some(Fails)),
        ("TUR: A smy supports A bul -> con", None),
        ("RUS: F bla -> bul(ec)", Some(Fails)),
        ("AUS: A ser -> bul", Some(Fails)),
    ]);
}

/// https://webdiplomacy.net/doc/DATC_v3_0.html#6.C.9
#[test]
fn t6c09_no_help_in_dislodgement_of_own_unit_in_disrupted_circular_movement() {
    judge(&[
        ("TUR: F con -> bla", Some(Fails)),
        ("TUR: A smy supports A bul -> con", None),
        ("RUS: F bla -> bul(ec)", Some(Fails)),
        ("AUS: A ser -> bul", Some(Fails)),
        ("AUS: A bul -> con", Some(Fails)),
    ]);
}

/// https://webdiplomacy.net/doc/DATC_v3_0.html#6.D.1
#[test]
fn t6d01_supported_hold_can_prevent_dislodgement() {
    judge(&[
        ("AUS: F adr supports A tri -> ven", None),
        ("AUS: A tri -> ven", Some(Fails)),
        ("ITA: A ven hold", Some(Succeeds)),
        ("ITA: A tyr supports A ven", None),
    ]);
}

/// https://webdiplomacy.net/doc/DATC_v3_0.html#6.D.2
#[test]
fn t6d02_a_move_cuts_support_on_hold() {
    judge(&[
        ("AUS: F adr supports A tri -> ven", None),
        ("AUS: A tri -> ven", Some(Succeeds)),
        ("AUS: A vie -> tyr", Some(Fails)),
        ("ITA: A ven hold", Some(Fails)),
        ("ITA: A tyr supports A ven", None),
    ]);
}

/// https://webdiplomacy.net/doc/DATC_v3_0.html#6.D.3
#[test]
fn t6d03_a_move_cuts_support_on_move() {
    judge(&[
        ("AUS: F adr supports A tri -> ven", None),
        ("AUS: A tri -> ven", Some(Fails)),
        ("ITA: A ven hold", Some(Succeeds)),
        ("ITA: F ion -> adr", Some(Fails)),
    ]);
}

/// https://webdiplomacy.net/doc/DATC_v3_0.html#6.D.4
#[test]
fn t6d04_support_to_hold_on_unit_supporting_a_hold_allowed() {
    judge(&[
        ("GER: A ber supports F kie", None),
        ("GER: F kie supports A ber", None),
        ("RUS: F bal supports A pru -> ber", None),
        ("RUS: A pru -> ber", Some(Fails)),
    ]);
}

/// https://webdiplomacy.net/doc/DATC_v3_0.html#6.D.5
#[test]
fn t6d05_support_to_hold_on_unit_supporting_a_move_allowed() {
    judge(&[
        ("GER: A ber supports A mun -> sil", None),
        ("GER: F kie supports A ber", None),
        ("GER: A mun -> sil", None),
        ("RUS: F bal supports A pru -> ber", None),
        ("RUS: A pru -> ber", Some(Fails)),
    ]);
}

/// https://webdiplomacy.net/doc/DATC_v3_0.html#6.D.6
#[test]
fn t6d06_support_to_hold_on_convoying_unit_allowed() {
    judge(&[
        ("GER: A ber -> swe", Some(Succeeds)),
        ("GER: F bal convoys ber -> swe", None),
        ("GER: F pru Supports F bal", None),
        ("RUS: F lvn -> bal", Some(Fails)),
        ("RUS: F bot Supports F lvn -> bal", None),
    ]);
}

/// https://webdiplomacy.net/doc/DATC_v3_0.html#6.D.7
#[test]
fn t6d07_support_to_hold_on_moving_unit_not_allowed() {
    judge(&[
        ("GER: F bal -> swe", Some(Fails)),
        ("GER: F pru Supports F bal", None),
        ("RUS: F lvn -> bal", Some(Succeeds)),
        ("RUS: F bot Supports F lvn -> bal", None),
        ("RUS: A fin -> swe", Some(Fails)),
    ]);
}

/// https://webdiplomacy.net/doc/DATC_v3_0.html#6.D.8
#[test]
fn t6d08_failed_convoy_can_not_receive_hold_support() {
    judge(&[
        ("AUS: F ion hold", None),
        ("AUS: A ser Supports A alb -> gre", None),
        ("AUS: A alb -> gre", Some(Succeeds)),
        ("TUR: A gre -> nap", Some(Fails)),
        ("TUR: A bul Supports A gre", None),
    ]);
}

/// https://webdiplomacy.net/doc/DATC_v3_0.html#6.D.9
#[test]
fn t6d09_support_to_move_on_holding_unit_not_allowed() {
    judge(&[
        ("ITA: A ven -> tri", Some(Succeeds)),
        ("ITA: A tyr supports A ven -> tri", None),
        ("AUS: A alb supports A tri -> ser", None),
        ("AUS: A tri holds", Some(Fails)),
    ]);
}

/// https://webdiplomacy.net/doc/DATC_v3_0.html#6.D.10
#[test]
fn t6d10_self_dislodgment_prohibited() {
    judge(&[
        ("GER: A ber Hold", Some(Succeeds)),
        ("GER: F kie -> ber", Some(Fails)),
        ("GER: A mun Supports F kie -> ber", None),
    ]);
}

/// https://webdiplomacy.net/doc/DATC_v3_0.html#6.D.11
#[test]
fn t6d11_no_self_dislodgment_of_returning_unit() {
    judge(&[
        ("GER: A ber -> pru", Some(Fails)),
        ("GER: F kie -> ber", Some(Fails)),
        ("GER: A mun Supports F kie -> ber", None),
        ("RUS: A war -> pru", Some(Fails)),
    ]);
}

/// https://webdiplomacy.net/doc/DATC_v3_0.html#6.D.12
#[test]
fn t6d12_supporting_a_foreign_unit_to_dislodge_own_unit_prohibited() {
    judge(&[
        ("AUS: F tri Hold", Some(Succeeds)),
        ("AUS: A vie Supports A ven -> tri", None),
        ("ITA: A ven -> tri", Some(Fails)),
    ]);
}

/// https://webdiplomacy.net/doc/DATC_v3_0.html#6.D.13
#[test]
fn t6d13_supporting_a_foreign_unit_to_dislodge_a_returning_own_unit_prohibited() {
    judge(&[
        ("AUS: F tri -> adr", Some(Fails)),
        ("AUS: A vie Supports A ven -> tri", None),
        ("ITA: A ven -> tri", Some(Fails)),
        ("ITA: F apu -> adr", Some(Fails)),
    ]);
}

/// https://webdiplomacy.net/doc/DATC_v3_0.html#6.D.14
#[test]
fn t6d14_supporting_a_foreign_unit_is_not_enough_to_prevent_dislodgement() {
    judge(&[
        ("AUS: F tri Hold", Some(Fails)),
        ("AUS: A vie Supports A ven -> tri", None),
        ("ITA: A ven -> tri", Some(Succeeds)),
        ("ITA: A tyr Supports A ven -> tri", None),
        ("ITA: F adr Supports A ven -> tri", None),
    ]);
}

/// https://webdiplomacy.net/doc/DATC_v3_0.html#6.D.15
#[test]
fn t6d15_defender_can_not_cut_support_for_attack_on_itself() {
    judge(&[
        ("RUS: F con Supports F bla -> ank", None),
        ("RUS: F bla -> ank", Some(Succeeds)),
        ("TUR: F ank -> con", Some(Fails)),
    ]);
}

/// https://webdiplomacy.net/doc/DATC_v3_0.html#6.D.17
#[test]
fn t6d17_dislodgement_cuts_supports() {
    judge(&[
        ("RUS: F con Supports F bla -> ank", Some(Fails)),
        ("RUS: F bla -> ank", Some(Fails)),
        ("TUR: F ank -> con", Some(Succeeds)),
        ("TUR: A smy Supports F ank -> con", None),
        ("TUR: A arm -> ank", Some(Fails)),
    ]);
}

/// https://webdiplomacy.net/doc/DATC_v3_0.html#6.D.18
#[test]
fn t6d18_a_surviving_unit_will_sustain_support() {
    judge(&[
        ("RUS: F con Supports F bla -> ank", Some(Succeeds)),
        ("RUS: F bla -> ank", Some(Succeeds)),
        ("RUS: A bul Supports F con", Some(Succeeds)),
        ("TUR: F ank -> con", Some(Fails)),
        ("TUR: A smy Supports F ank -> con", Some(Succeeds)),
        ("TUR: A arm -> ank", Some(Fails)),
    ]);
}

/// https://webdiplomacy.net/doc/DATC_v3_0.html#6.D.19
#[test]
fn t6d19_even_when_surviving_is_in_alternative_way() {
    judge(&[
        ("RUS: F con Supports F bla -> ank", None),
        ("RUS: F bla -> ank", Some(Succeeds)),
        ("RUS: A smy Supports F ank -> con", None),
        ("TUR: F ank -> con", Some(Fails)),
    ]);
}

/// https://webdiplomacy.net/doc/DATC_v3_0.html#6.D.20
#[test]
fn t6d20_unit_can_not_cut_support_of_its_own_country() {
    judge(&[
        ("ENG: F lon Supports F nth -> eng", None),
        ("ENG: F nth -> eng", Some(Succeeds)),
        ("ENG: A yor -> lon", Some(Fails)),
        ("FRA: F eng Hold", Some(Fails)),
    ]);
}

/// https://webdiplomacy.net/doc/DATC_v3_0.html#6.D.21
#[test]
fn t6d21_dislodging_does_not_cancel_a_support_cut() {
    judge(&[
        ("AUS: F tri Hold", Some(Succeeds)),
        ("ITA: A ven -> tri", Some(Fails)),
        ("ITA: A tyr supports A ven -> tri", None),
        ("GER: A mun -> tyr", Some(Fails)),
        ("RUS: A sil -> mun", Some(Succeeds)),
        ("RUS: A ber Supports A sil -> mun", None),
    ]);
}

/// https://webdiplomacy.net/doc/DATC_v3_0.html#6.D.22
#[test]
fn t6d22_impossible_fleet_move_can_not_be_supported() {
    judge(&[
        ("GER: F kie -> mun", Some(Fails)),
        ("GER: A bur Supports F kie -> mun", None),
        ("RUS: A mun -> kie", Some(Succeeds)),
        ("RUS: A ber Supports A mun -> kie", None),
    ]);
}

/// https://webdiplomacy.net/doc/DATC_v3_0.html#6.D.23
#[test]
fn t6d23_impossible_coast_move_can_not_be_supported() {
    judge(&[
        ("ITA: F lyo -> spa(sc)", Some(Succeeds)),
        ("ITA: F wes Supports F lyo -> spa(sc)", None),
        ("FRA: F spa(nc) -> lyo", Some(Fails)),
        ("FRA: F mar Supports F spa(nc) -> lyo", None),
    ]);
}

/// https://webdiplomacy.net/doc/DATC_v3_0.html#6.D.24
#[test]
fn t6d24_impossible_army_move_can_not_be_supported() {
    judge(&[
        ("FRA: A mar -> lyo", Some(Fails)),
        ("FRA: F spa(sc) Supports A mar -> lyo", None),
        ("ITA: F lyo Hold", Some(Fails)),
        ("TUR: F tys Supports F wes -> lyo", None),
        ("TUR: F wes -> lyo", Some(Succeeds)),
    ]);
}

/// https://webdiplomacy.net/doc/DATC_v3_0.html#6.D.25
#[test]
fn t6d25_failing_hold_support_can_be_supported() {
    judge(&[
        ("GER: A ber Supports A pru", None),
        ("GER: F kie Supports A ber", None),
        ("RUS: F bal Supports A pru -> ber", None),
        ("RUS: A pru -> ber", Some(Fails)),
    ]);
}

/// https://webdiplomacy.net/doc/DATC_v3_0.html#6.D.26
#[test]
fn t6d26_failing_move_support_can_be_supported() {
    judge(&[
        ("GER: A ber Supports A pru -> sil", None),
        ("GER: F kie Supports A ber", None),
        ("RUS: F bal Supports A pru -> ber", None),
        ("RUS: A pru -> ber", Some(Fails)),
    ]);
}

/// https://webdiplomacy.net/doc/DATC_v3_0.html#6.D.27
#[test]
fn t6d27_failing_convoy_can_be_supported() {
    judge(&[
        ("ENG: F swe -> bal", Some(Fails)),
        ("ENG: F den Supports F swe -> bal", None),
        ("GER: A ber Hold", None),
        ("RUS: F bal convoys ber -> lvn", None),
        ("RUS: F pru Supports F bal", None),
    ]);
}

/// https://webdiplomacy.net/doc/DATC_v3_0.html#6.D.28
#[test]
fn t6d28_impossible_move_and_support() {
    judge(&[
        ("AUS: A bud Supports F rum", None),
        ("RUS: F rum -> hol", None),
        ("TUR: F bla -> rum", Some(Fails)),
        ("TUR: A bul Supports F bla -> rum", None),
    ]);
}

/// https://webdiplomacy.net/doc/DATC_v3_0.html#6.D.29
#[test]
fn t6d29_move_to_impossible_coast_and_support() {
    judge(&[
        ("AUS: A bud Supports F rum", None),
        ("RUS: F rum -> bul(sc)", None),
        ("TUR: F bla -> rum", Some(Fails)),
        ("TUR: A bul Supports F bla -> rum", None),
    ]);
}

/// https://webdiplomacy.net/doc/DATC_v3_0.html#6.D.30
#[test]
fn t6d30_move_without_coast_and_support() {
    judge(&[
        ("ITA: F aeg Supports F con", None),
        ("RUS: F con -> bul", Some(Fails)),
        ("TUR: F bla -> con", Some(Fails)),
        ("TUR: A bul Supports F bla -> con", None),
    ]);
}

/// https://webdiplomacy.net/doc/DATC_v3_0.html#6.D.31
#[test]
fn t6d31_a_tricky_impossible_support() {
    judge(&[
        ("AUS: A rum -> arm", Some(Fails)),
        ("TUR: F bla Supports A rum -> arm", None),
    ]);
}

/// https://webdiplomacy.net/doc/DATC_v3_0.html#6.D.32
#[test]
fn t6d32_a_missing_fleet() {
    judge(&[
        ("ENG: F edi Supports A lvp -> yor", None),
        ("ENG: A lvp -> yor", Some(Fails)),
        ("FRA: F lon Supports A yor", None),
        ("GER: A yor -> hol", Some(Fails)),
    ]);
}

/// https://webdiplomacy.net/doc/DATC_v3_0.html#6.D.33
#[test]
fn t6d33_unwanted_support_allowed() {
    judge(&[
        ("AUS: A ser -> bud", Some(Succeeds)),
        ("AUS: A vie -> bud", Some(Fails)),
        ("RUS: A gal supports A ser -> bud", None),
        ("TUR: A bul -> ser", Some(Succeeds)),
    ]);
}

/// https://webdiplomacy.net/doc/DATC_v3_0.html#6.D.34
#[test]
fn t6d34_support_targeting_own_area_not_allowed() {
    judge(&[
        ("GER: A ber -> pru", Some(Succeeds)),
        ("GER: A sil supports A ber -> pru", None),
        ("GER: F bal supports A ber -> pru", None),
        ("ITA: A pru supports A lvn -> pru", Some(Fails)),
        ("RUS: A war supports A lvn -> pru", None),
        ("RUS: A lvn -> pru", Some(Fails)),
    ]);
}

/// https://webdiplomacy.net/doc/DATC_v3_0.html#6.E.1
#[test]
fn t6e01_dislodged_unit_has_no_effect_on_attacker_area() {
    judge(&[
        ("GER: A ber -> pru", Some(Succeeds)),
        ("GER: F kie -> ber", Some(Succeeds)),
        ("GER: A sil supports A ber -> pru", None),
        ("RUS: A pru -> ber", Some(Fails)),
    ]);
}

/// https://webdiplomacy.net/doc/DATC_v3_0.html#6.E.2
#[test]
fn t6e02_no_self_dislodgement_in_head_to_head_battle() {
    judge(&[
        ("GER: A ber -> kie", Some(Fails)),
        ("GER: F kie -> ber", Some(Fails)),
        ("GER: A mun Supports A ber -> kie", None),
    ]);
}

/// https://webdiplomacy.net/doc/DATC_v3_0.html#6.E.3
#[test]
fn t6e03_no_help_in_dislodging_own_unit() {
    judge(&[
        ("GER: A ber -> kie", Some(Fails)),
        ("GER: A mun supports F kie -> ber", None),
        ("ENG: F kie -> ber", Some(Fails)),
    ]);
}

/// https://webdiplomacy.net/doc/DATC_v3_0.html#6.E.4
#[test]
fn t6e04_non_dislodged_loser_has_still_effect() {
    judge(&[
        ("GER: F hol -> nth", Some(Fails)),
        ("GER: F hel Supports F hol -> nth", None),
        ("GER: F ska Supports F hol -> nth", None),
        ("FRA: F nth -> hol", Some(Fails)),
        ("FRA: F bel Supports F nth -> hol", None),
        ("ENG: F edi Supports F nwg -> nth", None),
        ("ENG: F yor Supports F nwg -> nth", None),
        ("ENG: F nwg -> nth", Some(Fails)),
        ("AUS: A kie Supports A ruh -> hol", None),
        ("AUS: A ruh -> hol", Some(Fails)),
    ]);
}

/// https://webdiplomacy.net/doc/DATC_v3_0.html#6.E.5
#[test]
fn t6e05_loser_dislodged_by_another_army_has_still_effect() {
    judge(&[
        ("GER: F hol -> nth", Some(Fails)),
        ("GER: F hel Supports F hol -> nth", None),
        ("GER: F ska Supports F hol -> nth", None),
        ("FRA: F nth -> hol", Some(Fails)),
        ("FRA: F bel Supports F nth -> hol", None),
        ("ENG: F edi Supports F nwg -> nth", None),
        ("ENG: F yor Supports F nwg -> nth", None),
        ("ENG: F nwg -> nth", Some(Succeeds)),
        ("ENG: F lon Supports F nwg -> nth", None),
        ("AUS: A kie Supports A ruh -> hol", None),
        ("AUS: A ruh -> hol", Some(Fails)),
    ]);
}

/// https://webdiplomacy.net/doc/DATC_v3_0.html#6.E.6
#[test]
fn t6e06_not_dislodge_because_of_own_support_has_still_effect() {
    judge(&[
        ("GER: F hol -> nth", Some(Fails)),
        ("GER: F hel Supports F hol -> nth", None),
        ("FRA: F nth -> hol", Some(Fails)),
        ("FRA: F bel Supports F nth -> hol", None),
        ("FRA: F eng Supports F hol -> nth", None),
        ("AUS: A kie Supports A ruh -> hol", None),
        ("AUS: A ruh -> hol", Some(Fails)),
    ]);
}

/// https://webdiplomacy.net/doc/DATC_v3_0.html#6.E.7
#[test]
fn t6e07_no_self_dislodgement_with_beleaguered_garrison() {
    judge(&[
        ("ENG: F nth Hold", Some(Succeeds)),
        ("ENG: F yor Supports F nwy -> nth", None),
        ("GER: F hol Supports F hel -> nth", None),
        ("GER: F hel -> nth", Some(Fails)),
        ("RUS: F ska Supports F nwy -> nth", None),
        ("RUS: F nwy -> nth", Some(Fails)),
    ]);
}

/// https://webdiplomacy.net/doc/DATC_v3_0.html#6.E.8
#[test]
fn t6e08_no_self_dislodgement_with_beleaguered_garrison_and_head_to_head_battle() {
    judge(&[
        ("ENG: F nth -> nwy", Some(Fails)),
        ("ENG: F yor Supports F nwy -> nth", None),
        ("GER: F hol Supports F hel -> nth", None),
        ("GER: F hel -> nth", Some(Fails)),
        ("RUS: F ska Supports F nwy -> nth", None),
        ("RUS: F nwy -> nth", Some(Fails)),
    ]);
}

/// https://webdiplomacy.net/doc/DATC_v3_0.html#6.E.9
#[test]
fn t6e09_almost_self_dislodgement_with_beleaguered_garrison() {
    judge(&[
        ("ENG: F nth -> nwg", Some(Succeeds)),
        ("ENG: F yor Supports F nwy -> nth", None),
        ("GER: F hol Supports F hel -> nth", None),
        ("GER: F hel -> nth", Some(Fails)),
        ("RUS: F ska Supports F nwy -> nth", None),
        ("RUS: F nwy -> nth", Some(Succeeds)),
    ]);
}

/// https://webdiplomacy.net/doc/DATC_v3_0.html#6.E.10
#[test]
fn t6e10_almost_circular_movement_with_no_self_dislodgement_with_beleaguered_garrison() {
    judge(&[
        ("ENG: F nth -> den", Some(Fails)),
        ("ENG: F yor Supports F nwy -> nth", None),
        ("GER: F hol Supports F hel -> nth", None),
        ("GER: F hel -> nth", Some(Fails)),
        ("GER: F den -> hel", Some(Fails)),
        ("RUS: F ska Supports F nwy -> nth", None),
        ("RUS: F nwy -> nth", Some(Fails)),
    ]);
}

/// https://webdiplomacy.net/doc/DATC_v3_0.html#6.E.12
#[test]
fn t6e12_support_on_attack_on_own_unit_can_be_used_for_other_means() {
    judge(&[
        ("AUS: A bud -> rum", Some(Fails)),
        ("AUS: A ser Supports A vie -> bud", None),
        ("ITA: A vie -> bud", Some(Fails)),
        ("RUS: A gal -> bud", Some(Fails)),
        ("RUS: A rum Supports A gal -> bud", None),
    ]);
}

/// https://webdiplomacy.net/doc/DATC_v3_0.html#6.E.13
#[test]
fn t6e13_three_way_beleaguered_garrison() {
    judge(&[
        ("ENG: F edi Supports F yor -> nth", None),
        ("ENG: F yor -> nth", Some(Fails)),
        ("FRA: F bel -> nth", Some(Fails)),
        ("FRA: F eng Supports F bel -> nth", None),
        ("GER: F nth Hold", Some(Succeeds)),
        ("RUS: F nwg -> nth", Some(Fails)),
        ("RUS: F nwy Supports F nwg -> nth", None),
    ]);
}

/// https://webdiplomacy.net/doc/DATC_v3_0.html#6.E.14
#[test]
fn t6e14_illegal_head_to_head_battle_can_still_defend() {
    judge(&[
        ("ENG: A lvp -> edi", Some(Fails)),
        ("RUS: F edi -> lvp", Some(Fails)),
    ]);
}

/// https://webdiplomacy.net/doc/DATC_v3_0.html#6.E.15
#[test]
fn t6e15_the_friendly_head_to_head_battle() {
    judge(&[
        ("ENG: F hol Supports A ruh -> kie", None),
        ("ENG: A ruh -> kie", Some(Fails)),
        ("FRA: A kie -> ber", Some(Fails)),
        ("FRA: A mun Supports A kie -> ber", None),
        ("FRA: A sil Supports A kie -> ber", None),
        ("GER: A ber -> kie", Some(Fails)),
        ("GER: F den Supports A ber -> kie", None),
        ("GER: F hel Supports A ber -> kie", None),
        ("RUS: F bal Supports A pru -> ber", None),
        ("RUS: A pru -> ber", Some(Fails)),
    ]);
}

/// https://webdiplomacy.net/doc/DATC_v3_0.html#6.F.1
#[test]
fn t6f01_no_convoy_in_coastal_areas() {
    judge(&[
        ("TUR: A gre -> sev", Some(Fails)),
        ("TUR: F aeg convoys gre -> sev", None),
        ("TUR: F con convoys gre -> sev", None),
        ("TUR: F bla convoys gre -> sev", None),
    ]);
}

/// https://webdiplomacy.net/doc/DATC_v3_0.html#6.F.2
#[test]
fn t6f02_an_army_being_convoyed_can_bounce_as_normal() {
    judge(&[
        ("ENG: F eng convoys lon -> bre", None),
        ("ENG: A lon -> bre", Some(Fails)),
        ("FRA: A par -> bre", Some(Fails)),
    ]);
}

/// https://webdiplomacy.net/doc/DATC_v3_0.html#6.F.3
#[test]
fn t6f03_an_army_being_convoyed_can_receive_support() {
    judge(&[
        ("ENG: F eng convoys lon -> bre", None),
        ("ENG: A lon -> bre", Some(Succeeds)),
        ("ENG: F mao Supports A lon -> bre", Some(Succeeds)),
        ("FRA: A par -> bre", Some(Fails)),
    ]);
}

/// https://webdiplomacy.net/doc/DATC_v3_0.html#6.F.4
#[test]
fn t6f04_an_attacked_convoy_is_not_disrupted() {
    judge(&[
        ("ENG: F nth convoys lon -> hol", None),
        ("ENG: A lon -> hol", Some(Succeeds)),
        ("GER: F ska -> nth", Some(Fails)),
    ]);
}

/// https://webdiplomacy.net/doc/DATC_v3_0.html#6.F.5
#[test]
fn t6f05_a_beleaguered_convoy_is_not_disrupted() {
    judge(&[
        ("ENG: F nth convoys lon -> hol", None),
        ("ENG: A lon -> hol", Some(Succeeds)),
        ("FRA: F eng -> nth", Some(Fails)),
        ("FRA: F bel Supports F eng -> nth", None),
        ("GER: F ska -> nth", Some(Fails)),
        ("GER: F den Supports F ska -> nth", None),
    ]);
}

/// https://webdiplomacy.net/doc/DATC_v3_0.html#6.F.6
#[test]
fn t6f06_dislodged_convoy_does_not_cut_support() {
    judge(&[
        ("ENG: F nth convoys lon -> hol", None),
        ("ENG: A lon -> hol", None),
        ("GER: A hol Supports A bel", Some(Succeeds)),
        ("GER: A bel Supports A hol", None),
        ("GER: F hel Supports F ska -> nth", None),
        ("GER: F ska -> nth", None),
        ("FRA: A pic -> bel", Some(Fails)),
        ("FRA: A bur Supports A pic -> bel", None),
    ]);
}

/// https://webdiplomacy.net/doc/DATC_v3_0.html#6.F.7
#[test]
fn t6f07_dislodged_convoy_does_not_cause_contested_area() {
    judge(&[
        ("ENG: F nth convoys lon -> hol", None),
        ("ENG: A lon -> hol", Some(Fails)),
        ("GER: F hel Supports F ska -> nth", None),
        ("GER: F ska -> nth", Some(Succeeds)),
    ]);
}

/// https://webdiplomacy.net/doc/DATC_v3_0.html#6.F.8
#[test]
fn t6f08_dislodged_convoy_does_not_cause_a_bounce() {
    judge(&[
        ("ENG: F nth convoys lon -> hol", None),
        ("ENG: A lon -> hol", Some(Fails)),
        ("GER: F hel Supports F ska -> nth", None),
        ("GER: F ska -> nth", Some(Succeeds)),
        ("GER: A bel -> hol", Some(Succeeds)),
    ]);
}

/// https://webdiplomacy.net/doc/DATC_v3_0.html#6.F.9
#[test]
fn t6f09_dislodge_of_multi_route_convoy() {
    judge(&[
        ("ENG: F eng convoys lon -> bel", None),
        ("ENG: F nth convoys lon -> bel", None),
        ("ENG: A lon -> bel", Some(Succeeds)),
        ("FRA: F bre Supports F mao -> eng", None),
        ("FRA: F mao -> eng", Some(Succeeds)),
    ]);
}

/// https://webdiplomacy.net/doc/DATC_v3_0.html#6.F.10
#[test]
fn t6f10_dislodge_of_multi_route_convoy_with_foreign_fleet() {
    judge(&[
        ("ENG: F nth convoys lon -> bel", None),
        ("ENG: A lon -> bel", Some(Succeeds)),
        ("GER: F eng convoys lon -> bel", None),
        ("FRA: F bre Supports F mao -> eng", None),
        ("FRA: F mao -> eng", Some(Succeeds)),
    ]);
}

/// https://webdiplomacy.net/doc/DATC_v3_0.html#6.F.11
#[test]
fn t6f11_dislodge_of_multi_route_convoy_with_only_foreign_fleets() {
    judge(&[
        ("ENG: A lon -> bel", Some(Succeeds)),
        ("GER: F eng convoys lon -> bel", None),
        ("RUS: F nth convoys lon -> bel", None),
        ("FRA: F bre Supports F mao -> eng", None),
        ("FRA: F mao -> eng", Some(Succeeds)),
    ]);
}

/// https://webdiplomacy.net/doc/DATC_v3_0.html#6.F.12
#[test]
fn t6f12_dislodged_convoying_fleet_not_on_route() {
    judge(&[
        ("ENG: F eng convoys lon -> bel", None),
        ("ENG: A lon -> bel", Some(Succeeds)),
        ("ENG: F iri convoys lon -> bel", Some(Fails)),
        ("FRA: F nao Supports F mao -> iri", None),
        ("FRA: F mao -> iri", Some(Succeeds)),
    ]);
}

/// https://webdiplomacy.net/doc/DATC_v3_0.html#6.F.13
#[test]
fn t6f13_the_unwanted_alternative() {
    judge(&[
        ("ENG: A lon -> bel", Some(Succeeds)),
        ("ENG: F nth convoys lon -> bel", None),
        ("FRA: F eng convoys lon -> bel", None),
        ("GER: F hol Supports F den -> nth", None),
        ("GER: F den -> nth", Some(Succeeds)),
    ]);
}

/// https://webdiplomacy.net/doc/DATC_v3_0.html#6.F.14
#[test]
fn t6f14_simple_convoy_paradox() {
    judge(&[
        ("ENG: F lon Supports F wal -> eng", None),
        ("ENG: F wal -> eng", Some(Succeeds)),
        ("FRA: A bre -> lon", Some(Fails)),
        ("FRA: F eng convoys bre -> lon", Some(Fails)),
    ]);
}

/// https://webdiplomacy.net/doc/DATC_v3_0.html#6.F.15
#[test]
fn t6f15_simple_convoy_paradox_with_additional_convoy() {
    judge(&[
        ("ENG: F lon Supports F wal -> eng", None),
        ("ENG: F wal -> eng", Some(Succeeds)),
        ("FRA: A bre -> lon", Some(Fails)),
        ("FRA: F eng convoys bre -> lon", None),
        ("ITA: F iri convoys naf -> wal", None),
        ("ITA: F mao convoys naf -> wal", None),
        ("ITA: A naf -> wal", Some(Succeeds)),
    ]);
}

/// https://webdiplomacy.net/doc/DATC_v3_0.html#6.F.16
#[test]
fn t6f16_pandins_paradox() {
    judge(&[
        ("ENG: F lon Supports F wal -> eng", None),
        ("ENG: F wal -> eng", Some(Fails)),
        ("FRA: A bre -> lon", Some(Fails)),
        ("FRA: F eng convoys bre -> lon", None),
        ("GER: F nth Supports F bel -> eng", None),
        ("GER: F bel -> eng", Some(Fails)),
    ]);
}

/// https://webdiplomacy.net/doc/DATC_v3_0.html#6.F.17
#[test]
fn t6f17_pandins_extended_paradox() {
    judge(&[
        ("ENG: F lon Supports F wal -> eng", None),
        ("ENG: F wal -> eng", Some(Fails)),
        ("FRA: A bre -> lon", Some(Fails)),
        ("FRA: F eng convoys bre -> lon", None),
        ("FRA: F yor Supports A bre -> lon", None),
        ("GER: F nth Supports F bel -> eng", None),
        ("GER: F bel -> eng", Some(Fails)),
    ]);
}

/// https://webdiplomacy.net/doc/DATC_v3_0.html#6.F.18
#[test]
fn t6f18_betrayal_paradox() {
    judge(&[
        ("ENG: F nth convoys lon -> bel", None),
        ("ENG: A lon -> bel", Some(Fails)),
        ("ENG: F eng Supports A lon -> bel", None),
        ("FRA: F bel Supports F nth", None),
        ("GER: F hel Supports F ska -> nth", None),
        ("GER: F ska -> nth", Some(Fails)),
    ]);
}

/// https://webdiplomacy.net/doc/DATC_v3_0.html#6.F.19
#[test]
fn t6f19_multi_route_convoy_disruption_paradox() {
    judge(&[
        ("FRA: A tun -> nap", Some(Fails)),
        ("FRA: F tys convoys tun -> nap", None),
        ("FRA: F ion convoys tun -> nap", None),
        ("ITA: F nap Supports F rom -> tys", None),
        ("ITA: F rom -> tys", Some(Fails)),
    ]);
}

/// https://webdiplomacy.net/doc/DATC_v3_0.html#6.F.20
#[test]
fn t6f20_unwanted_multi_route_convoy_paradox() {
    judge(&[
        ("FRA: A tun -> nap", None),
        ("FRA: F tys convoys tun -> nap", None),
        ("ITA: F nap Supports F ion", None),
        ("ITA: F ion convoys tun -> nap", None),
        ("TUR: F aeg Supports F eas -> ion", None),
        ("TUR: F eas -> ion", Some(Succeeds)),
    ]);
}

/// https://webdiplomacy.net/doc/DATC_v3_0.html#6.F.21
#[test]
fn t6f21_dads_army_convoy() {
    judge(&[
        ("RUS: A edi Supports A nwy -> cly", None),
        ("RUS: F nwg convoys nwy -> cly", None),
        ("RUS: A nwy -> cly", None),
        ("FRA: F iri Supports F mao -> nao", None),
        ("FRA: F mao -> nao", Some(Succeeds)),
        ("ENG: A lvp -> cly via Convoy", Some(Fails)),
        ("ENG: F nao convoys lvp -> cly", None),
        ("ENG: F cly Supports F nao", None),
    ]);
}

/// https://webdiplomacy.net/doc/DATC_v3_0.html#6.F.22
#[test]
fn t6f22_second_order_paradox_with_two_resolutions() {
    judge(&[
        ("ENG: F edi -> nth", Some(Succeeds)),
        ("ENG: F lon Supports F edi -> nth", None),
        ("FRA: A bre -> lon", Some(Fails)),
        ("FRA: F eng convoys bre -> lon", Some(Fails)),
        ("GER: F bel Supports F pic -> eng", None),
        ("GER: F pic -> eng", Some(Succeeds)),
        ("RUS: A nwy -> bel", Some(Fails)),
        ("RUS: F nth convoys nwy -> bel", Some(Fails)),
    ]);
}

/// https://webdiplomacy.net/doc/DATC_v3_0.html#6.F.23
#[test]
fn t6f23_second_order_paradox_with_two_exclusive_convoys() {
    judge(&[
        ("ENG: F edi -> nth", Some(Fails)),
        ("ENG: F yor Supports F edi -> nth", None),
        ("FRA: A bre -> lon", Some(Fails)),
        ("FRA: F eng convoys bre -> lon", None),
        ("GER: F bel Supports F eng", None),
        ("GER: F lon Supports F nth", None),
        ("ITA: F mao -> eng", Some(Fails)),
        ("ITA: F iri Supports F mao -> eng", None),
        ("RUS: A nwy -> bel", Some(Fails)),
        ("RUS: F nth convoys nwy -> bel", None),
    ]);
}

/// https://webdiplomacy.net/doc/DATC_v3_0.html#6.F.24
#[test]
fn t6f24_second_order_paradox_with_no_resolution() {
    judge(&[
        ("ENG: F edi -> nth", None),
        ("ENG: F lon Supports F edi -> nth", None),
        ("ENG: F iri -> eng", None),
        ("ENG: F mao Supports F iri -> eng", None),
        ("FRA: A bre -> lon", Some(Fails)),
        ("FRA: F eng convoys bre -> lon", None),
        ("FRA: F bel Supports F eng", None),
        ("RUS: A nwy -> bel", Some(Fails)),
        ("RUS: F nth convoys nwy -> bel", Some(Fails)),
    ]);
}

/// https://webdiplomacy.net/doc/DATC_v3_0.html#6.F.25
#[test]
fn t6f25_cut_support_last() {
    judge(&[
        ("GER: A ruh -> bel", Some(Fails)),
        ("GER: A hol Supports A ruh -> bel", None),
        ("GER: A den -> nwy", None),
        ("GER: F ska Convoys den -> nwy", None),
        ("GER: A fin Supports A den -> nwy", None),
        ("ENG: A yor -> hol", Some(Succeeds)),
        ("ENG: F nth Convoys yor -> hol", None),
        ("ENG: F hel Supports A yor -> hol", None),
        ("ENG: A bel hold", None),
        ("RUS: F nwg -> nth", Some(Fails)),
        ("RUS: F nwy Supports F nwg -> nth", None),
        ("RUS: F swe -> ska", Some(Fails)),
    ]);
}

/// https://webdiplomacy.net/doc/DATC_v3_0.html#6.G.1
#[test]
fn t6g01_two_units_can_swap_provinces_by_convoy() {
    judge(&[
        ("ENG: A nwy -> swe", Some(Succeeds)),
        ("ENG: F ska Convoys nwy -> swe", None),
        ("RUS: A swe -> nwy", Some(Succeeds)),
    ]);
}

/// https://webdiplomacy.net/doc/DATC_v3_0.html#6.G.2
#[test]
fn t6g02_kidnapping_an_army() {
    judge(&[
        ("ENG: A nwy -> swe", Some(Succeeds)),
        ("RUS: F swe -> nwy", Some(Succeeds)),
        ("GER: F ska convoys nwy -> swe", None),
    ]);
}

/// https://webdiplomacy.net/doc/DATC_v3_0.html#6.G.3
#[test]
fn t6g03_unwanted_disrupted_convoy_to_adjacent_province() {
    judge(&[
        ("FRA: F bre -> eng", Some(Succeeds)),
        ("FRA: A pic -> bel", Some(Succeeds)),
        ("FRA: A bur Supports A pic -> bel", None),
        ("FRA: F mao Supports F bre -> eng", None),
        ("ENG: F eng convoys pic -> bel", None),
    ]);
}

/// https://webdiplomacy.net/doc/DATC_v3_0.html#6.G.4
#[test]
fn t6g04_unwanted_disrupted_convoy_to_adjacent_province_and_opposite_move() {
    judge(&[
        ("FRA: F bre -> eng", Some(Succeeds)),
        ("FRA: A pic -> bel", Some(Succeeds)),
        ("FRA: A bur Supports A pic -> bel", None),
        ("FRA: F mao Supports F bre -> eng", None),
        ("ENG: F eng convoys pic -> bel", None),
        ("ENG: A bel -> pic", Some(Fails)),
    ]);
}

/// https://webdiplomacy.net/doc/DATC_v3_0.html#6.G.5
#[test]
fn t6g05_swapping_with_intent() {
    judge(&[
        ("ITA: A rom -> apu", Some(Succeeds)),
        ("ITA: F tys convoys apu -> rom", None),
        ("TUR: A apu -> rom", Some(Succeeds)),
        ("TUR: F ion convoys apu -> rom", None),
    ]);
}

/// https://webdiplomacy.net/doc/DATC_v3_0.html#6.G.6
#[test]
fn t6g06_swapping_with_unintended_intent() {
    judge(&[
        ("ENG: A lvp -> edi", Some(Succeeds)),
        ("ENG: F eng convoys lvp -> edi", None),
        ("GER: A edi -> lvp", Some(Succeeds)),
        ("FRA: F iri Hold", None),
        ("FRA: F nth Hold", None),
        ("RUS: F nwg convoys lvp -> edi", None),
        ("RUS: F nao convoys lvp -> edi", None),
    ]);
}

/// https://webdiplomacy.net/doc/DATC_v3_0.html#6.G.7
#[test]
fn t6g07_swapping_with_illegal_intent() {
    judge(&[
        ("ENG: F ska convoys swe -> nwy", None),
        ("ENG: F nwy -> swe", Some(Succeeds)),
        ("RUS: A swe -> nwy", Some(Succeeds)),
        ("RUS: F bot convoys swe -> nwy", None),
    ]);
}

/// https://webdiplomacy.net/doc/DATC_v3_0.html#6.G.8
#[test]
fn t6g08_explicit_convoy_that_isnt_there() {
    judge(&[
        ("FRA: A bel -> hol via Convoy", Some(Fails)),
        ("ENG: F nth -> hel", Some(Succeeds)),
        ("ENG: A hol -> kie", Some(Succeeds)),
    ]);
}

/// https://webdiplomacy.net/doc/DATC_v3_0.html#6.G.9
#[test]
fn t6g09_swapped_or_dislodged() {
    judge(&[
        ("ENG: A nwy -> swe", Some(Succeeds)),
        ("ENG: F ska convoys nwy -> swe", None),
        ("ENG: F fin Supports A nwy -> swe", None),
        ("RUS: A swe -> nwy", Some(Succeeds)),
    ]);
}

/// https://webdiplomacy.net/doc/DATC_v3_0.html#6.G.10
#[test]
fn t6g10_swapped_or_an_head_to_head_battle() {
    judge(&[
        ("ENG: A nwy -> swe via Convoy", Some(Succeeds)),
        ("ENG: F den Supports A nwy -> swe", None),
        ("ENG: F fin Supports A nwy -> swe", None),
        ("GER: F ska convoys nwy -> swe", None),
        ("RUS: A swe -> nwy", Some(Fails)),
        ("RUS: F bar supports A swe -> nwy", None),
        ("FRA: F nwg -> nwy", Some(Fails)),
        ("FRA: F nth Supports F nwg -> nwy", None),
    ]);
}

/// https://webdiplomacy.net/doc/DATC_v3_0.html#6.G.11
#[test]
fn t6g11_a_convoy_to_an_adjacent_place_with_a_paradox() {
    judge(&[
        ("ENG: F nwy Supports F nth -> ska", None),
        ("ENG: F nth -> ska", Some(Fails)),
        ("RUS: A swe -> nwy", Some(Succeeds)),
        ("RUS: F ska convoys swe -> nwy", None),
        ("RUS: F bar Supports A swe -> nwy", None),
    ]);
}

/// https://webdiplomacy.net/doc/DATC_v3_0.html#6.G.11
#[test]
fn t6g11_variant_an_explicit_convoy_to_an_adjacent_place_with_a_paradox() {
    judge(&[
        ("ENG: F nwy Supports F nth -> ska", None),
        ("ENG: F nth -> ska", Some(Succeeds)),
        ("RUS: A swe -> nwy via Convoy", Some(Fails)),
        ("RUS: F ska convoys swe -> nwy", None),
        ("RUS: F bar Supports A swe -> nwy", None),
    ]);
}

/// https://webdiplomacy.net/doc/DATC_v3_0.html#6.G.12
#[test]
fn t6g12_swapping_two_units_with_two_convoys() {
    judge(&[
        ("ENG: A lvp -> edi via Convoy", Some(Succeeds)),
        ("ENG: F nao convoys lvp -> edi", None),
        ("ENG: F nwg convoys lvp -> edi", None),
        ("GER: A edi -> lvp via Convoy", Some(Succeeds)),
        ("GER: F nth convoys edi -> lvp", None),
        ("GER: F eng convoys edi -> lvp", None),
        ("GER: F iri convoys edi -> lvp", None),
    ]);
}

/// https://webdiplomacy.net/doc/DATC_v3_0.html#6.G.13
#[test]
fn t6g13_support_cut_on_attack_on_itself_via_convoy() {
    judge(&[
        ("AUS: F adr convoys tri -> ven", None),
        ("AUS: A tri -> ven via Convoy", Some(Fails)),
        ("ITA: A ven Supports F alb -> tri", None),
        ("ITA: F alb -> tri", Some(Succeeds)),
    ]);
}

/// https://webdiplomacy.net/doc/DATC_v3_0.html#6.G.14
#[test]
fn t6g14_bounce_by_convoy_to_adjacent_place() {
    judge(&[
        ("ENG: A nwy -> swe", Some(Succeeds)),
        ("ENG: F den Supports A nwy -> swe", None),
        ("ENG: F fin Supports A nwy -> swe", None),
        ("FRA: F nwg -> nwy", Some(Fails)),
        ("FRA: F nth Supports F nwg -> nwy", None),
        ("GER: F ska convoys swe -> nwy", None),
        ("RUS: A swe -> nwy via Convoy", Some(Fails)),
        ("RUS: F bar Supports A swe -> nwy", None),
    ]);
}

/// https://webdiplomacy.net/doc/DATC_v3_0.html#6.G.15
#[test]
fn t6g15_bounce_and_dislodge_with_double_convoy() {
    judge(&[
        ("ENG: F nth convoys lon -> bel", None),
        ("ENG: A hol Supports A lon -> bel", None),
        ("ENG: A yor -> lon", Some(Fails)),
        ("ENG: A lon -> bel via Convoy", None),
        ("FRA: F eng convoys bel -> lon", None),
        ("FRA: A bel -> lon via Convoy", None),
    ]);
}

/// https://webdiplomacy.net/doc/DATC_v3_0.html#6.G.16
#[test]
fn t6g16_the_two_unit_in_one_area_bug_moving_by_convoy() {
    judge(&[
        ("ENG: A nwy -> swe", Some(Succeeds)),
        ("ENG: A den Supports A nwy -> swe", None),
        ("ENG: F bal Supports A nwy -> swe", None),
        ("ENG: F nth -> nwy", Some(Fails)),
        ("RUS: A swe -> nwy via Convoy", Some(Succeeds)),
        ("RUS: F ska convoys swe -> nwy", None),
        ("RUS: F nwg Supports A swe -> nwy", None),
    ]);
}

/// https://webdiplomacy.net/doc/DATC_v3_0.html#6.G.17
#[test]
fn t6g17_the_two_unit_in_one_area_bug_moving_over_land() {
    judge(&[
        ("ENG: A nwy -> swe via Convoy", Some(Succeeds)),
        ("ENG: A den Supports A nwy -> swe", None),
        ("ENG: F bal Supports A nwy -> swe", None),
        ("ENG: F ska convoys nwy -> swe", None),
        ("ENG: F nth -> nwy", Some(Fails)),
        ("RUS: A swe -> nwy", Some(Succeeds)),
        ("RUS: F nwg Supports A swe -> nwy", None),
    ]);
}

/// https://webdiplomacy.net/doc/DATC_v3_0.html#6.G.18
#[test]
fn t6g18_the_two_unit_in_one_area_bug_with_double_convoy() {
    judge(&[
        ("ENG: F nth convoys lon -> bel", None),
        ("ENG: A hol Supports A lon -> bel", None),
        ("ENG: A yor -> lon", Some(Fails)),
        ("ENG: A lon -> bel", Some(Succeeds)),
        ("ENG: A ruh Supports A lon -> bel", None),
        ("FRA: F eng convoys bel -> lon", None),
        ("FRA: A bel -> lon", Some(Succeeds)),
        ("FRA: A wal Supports A bel -> lon", None),
    ]);
}

/// https://webdiplomacy.net/doc/DATC_v3_0.html#6.G.19
#[test]
fn t6g20_explicit_convoy_to_adjacent_province_disrupted() {
    judge(&[
        ("FRA: F bre -> eng", Some(Succeeds)),
        ("FRA: A pic -> bel via convoy", Some(Fails)),
        ("FRA: A bur supports A pic -> bel", None),
        ("FRA: F mao supports F bre -> eng", None),
        ("ENG: F eng convoys pic -> bel", None),
    ]);
}

/// https://webdiplomacy.net/doc/DATC_v3_0.html#6.H.4
#[test]
fn t6h04_no_other_moves_during_retreat() {
    judge_retreat(
        &[
            ("ENG: F nth Hold", Some(Succeeds)),
            ("ENG: A hol Hold", Some(Fails)),
            ("GER: F kie Supports A ruh -> hol", None),
            ("GER: A ruh -> hol", Some(Succeeds)),
        ],
        &[
            ("ENG: F nth -> nwg", Some(Is(RetreatOutcome::InvalidRecipient))),
            ("ENG: A hol -> bel", Some(Is(RetreatOutcome::Moves))),
        ],
    );
}

/// https://webdiplomacy.net/doc/DATC_v3_0.html#6.H.5
#[test]
fn t6h05_a_unit_may_not_retreat_to_the_area_from_which_it_is_attacked() {
    judge_retreat(
        &[
            ("RUS: F con Supports F bla -> ank", None),
            ("RUS: F bla -> ank", Some(Succeeds)),
            ("TUR: F ank Hold", Some(Fails)),
        ],
        &[
            ("TUR: F ank -> bla", Some(Is(RetreatOutcome::InvalidDestination(DestStatus::BlockedByDislodger)))),
        ],
    );
}

/// https://webdiplomacy.net/doc/DATC_v3_0.html#6.H.6
#[test]
fn t6h06_unit_may_not_retreat_to_a_contested_area() {
    judge_retreat(
        &[
            ("AUS: A bud Supports A tri -> vie", None),
            ("AUS: A tri -> vie", Some(Succeeds)),
            ("GER: A mun -> boh", Some(Fails)),
            ("GER: A sil -> boh", Some(Fails)),
            ("ITA: A vie Hold", Some(Fails)),
        ],
        &[
            ("ITA: A vie -> boh", Some(Is(RetreatOutcome::InvalidDestination(DestStatus::Contested)))),
        ],
    );
}

/// https://webdiplomacy.net/doc/DATC_v3_0.html#6.H.7
#[test]
fn t6h07_multiple_retreat_to_same_area_will_disband_units() {
    judge_retreat(
        &[
            ("AUS: A bud Supports A tri -> vie", None),
            ("AUS: A tri -> vie", Some(Succeeds)),
            ("GER: A mun Supports A sil -> boh", None),
            ("GER: A sil -> boh", Some(Succeeds)),
            ("ITA: A vie Hold", Some(Fails)),
            ("ITA: A boh Hold", Some(Fails)),
        ],
        &[
            ("ITA: A vie -> tyr", Some(PreventedBy("ITA: A boh -> tyr"))),
            ("ITA: A boh -> tyr", Some(PreventedBy("ITA: A vie -> tyr"))),
        ],
    );
}

/// https://webdiplomacy.net/doc/DATC_v3_0.html#6.H.8
#[test]
fn t6h08_triple_retreat_to_same_area_will_disband_units() {
    judge_retreat(
        &[
            ("ENG: A lvp -> edi", Some(Succeeds)),
            ("ENG: F yor Supports A lvp -> edi", None),
            ("ENG: F nwy Hold", Some(Fails)),
            ("GER: A kie Supports A ruh -> hol", None),
            ("GER: A ruh -> hol", Some(Succeeds)),
            ("RUS: F edi Hold", Some(Fails)),
            ("RUS: A swe Supports A fin -> nwy", None),
            ("RUS: A fin -> nwy", Some(Succeeds)),
            ("RUS: F hol Hold", Some(Fails)),
        ],
        &[
            ("ENG: F nwy -> nth", Some(PreventedBy("RUS: F edi -> nth"))),
            ("RUS: F edi -> nth", Some(PreventedBy("RUS: F hol -> nth"))),
            ("RUS: F hol -> nth", Some(PreventedBy("RUS: F edi -> nth"))),
        ],
    );
}

/// https://webdiplomacy.net/doc/DATC_v3_0.html#6.H.9
#[test]
fn t6h09_dislodged_unit_will_not_make_attackers_area_contested() {
    judge_retreat(
        &[
            ("ENG: F hel -> kie", Some(Succeeds)),
            ("ENG: F den Supports F hel -> kie", None),
            ("GER: A ber -> pru", Some(Succeeds)),
            ("GER: F kie Hold", Some(Fails)),
            ("GER: A sil Supports A ber -> pru", None),
            ("RUS: A pru -> ber", Some(Fails)),
        ],
        &[
            ("GER: F kie -> ber", Some(Is(RetreatOutcome::Moves))),
        ],
    );
}

/// https://webdiplomacy.net/doc/DATC_v3_0.html#6.H.10
#[test]
fn t6h10_not_retreating_to_attacker_does_not_mean_contested() {
    judge_retreat(
        &[
            ("ENG: A kie Hold", Some(Fails)),
            ("GER: A ber -> kie", Some(Succeeds)),
            ("GER: A mun Supports A ber -> kie", None),
            ("GER: A pru Hold", Some(Fails)),
            ("RUS: A war -> pru", Some(Succeeds)),
            ("RUS: A sil Supports A war -> pru", None),
        ],
        &[
            ("ENG: A kie -> ber", Some(Is(RetreatOutcome::InvalidDestination(DestStatus::BlockedByDislodger)))),
            ("GER: A pru -> ber", Some(Is(RetreatOutcome::Moves))),
        ],
    );
}

/// https://webdiplomacy.net/doc/DATC_v3_0.html#6.H.11
#[test]
fn t6h11_retreat_when_dislodged_by_adjacent_convoy() {
    judge_retreat(
        &[
            ("FRA: A gas -> mar via Convoy", Some(Succeeds)),
            ("FRA: A bur Supports A gas -> mar", None),
            ("FRA: F mao convoys gas -> mar", None),
            ("FRA: F wes convoys gas -> mar", None),
            ("FRA: F lyo convoys gas -> mar", None),
            ("ITA: A mar Hold", Some(Fails)),
        ],
        &[
            ("ITA: A mar -> gas", Some(Is(RetreatOutcome::Moves))),
        ],
    );
}

/// https://webdiplomacy.net/doc/DATC_v3_0.html#6.H.12
#[test]
fn t6h12_retreat_when_dislodged_by_adjacent_convoy_while_trying_to_do_the_same() {
    judge_retreat(
        &[
            ("ENG: A lvp -> edi via Convoy", Some(Fails)),
            ("ENG: F iri convoys lvp -> edi", None),
            ("ENG: F eng convoys lvp -> edi", None),
            ("ENG: F nth convoys lvp -> edi", None),
            ("FRA: F bre -> eng", None),
            ("FRA: F mao Supports F bre -> eng", None),
            ("RUS: A edi -> lvp via Convoy", Some(Succeeds)),
            ("RUS: F nwg convoys edi -> lvp", None),
            ("RUS: F nao convoys edi -> lvp", None),
            ("RUS: A cly Supports A edi -> lvp", None),
        ],
        &[
            ("ENG: A lvp -> edi", Some(Is(RetreatOutcome::Moves))),
        ],
    );
}

/// https://webdiplomacy.net/doc/DATC_v3_0.html#6.H.13
#[test]
fn t6h13_no_retreat_with_convoy_in_main_phase() {
    judge_retreat(
        &[
            ("ENG: A pic Hold", Some(Fails)),
            ("ENG: F eng convoys pic -> lon", None),
            ("FRA: A par -> pic", Some(Succeeds)),
            ("FRA: A bre Supports A par -> pic", None),
        ],
        &[
            ("ENG: A pic -> lon", Some(Is(RetreatOutcome::InvalidDestination(DestStatus::Unreachable)))),
        ],
    );
}

/// https://webdiplomacy.net/doc/DATC_v3_0.html#6.H.14
#[test]
fn t6h14_no_retreat_with_support_in_main_phase() {
    judge_retreat(
        &[
            ("ENG: A pic Hold", Some(Fails)),
            ("ENG: F eng Supports A pic -> bel", None),
            ("FRA: A par -> pic", Some(Succeeds)),
            ("FRA: A bre Supports A par -> pic", None),
            ("FRA: A bur Hold", Some(Fails)),
            ("GER: A mun Supports A mar -> bur", None),
            ("GER: A mar -> bur", Some(Succeeds)),
        ],
        &[
            ("ENG: A pic -> bel", Some(PreventedBy("FRA: A bur -> bel"))),
            ("FRA: A bur -> bel", Some(PreventedBy("ENG: A pic -> bel"))),
        ],
    );
}

/// https://webdiplomacy.net/doc/DATC_v3_0.html#6.H.15
#[test]
fn t6h15_no_coastal_crawl_in_retreat() {
    judge_retreat(
        &[
            ("ENG: F por Hold", Some(Fails)),
            ("FRA: F spa(sc) -> por", Some(Succeeds)),
            ("FRA: F mao Supports F spa(sc) -> por", None),
        ],
        &[
            ("ENG: F por -> spa(nc)", Some(Is(RetreatOutcome::InvalidDestination(DestStatus::BlockedByDislodger)))),
        ],
    );
}

/// https://webdiplomacy.net/doc/DATC_v3_0.html#6.H.16
#[test]
fn t6h16_contested_for_both_coasts() {
    judge_retreat(
        &[
            ("FRA: F mao -> spa(nc)", Some(Fails)),
            ("FRA: F gas -> spa(nc)", Some(Fails)),
            ("FRA: F wes Hold", Some(Fails)),
            ("ITA: F tun Supports F tys -> wes", None),
            ("ITA: F tys -> wes", Some(Succeeds)),
        ],
        &[
            ("FRA: F wes -> spa(sc)", Some(Is(RetreatOutcome::InvalidDestination(DestStatus::Contested)))),
        ],
    );
}

/// https://webdiplomacy.net/doc/DATC_v3_0.html#6.A.6
#[test]
fn t6a06_ordering_a_unit_of_another_country() {
    let map = standard_map();
    let order = ord("GER: F lon -> nth");
    let submission = Submission::new(&map, &vec![unit_pos("ENG: F lon")], vec![order.clone()]);
    let outcome = submission.adjudicate(Rulebook::default());
    assert_eq!(
        outcome.get(&order).unwrap(),
        OrderOutcome::Illegal(IllegalOrder::ForeignUnit)
    );
}

/// https://webdiplomacy.net/doc/DATC_v3_0.html#6.B.11
#[test]
fn t6b11_coast_can_not_be_ordered_to_change() {
    let map = standard_map();
    let order = ord("FRA: F spa(sc) -> lyo");
    let submission = Submission::new(&map, &vec![unit_pos("FRA: F spa(nc)")], vec![order.clone()]);
    let outcome = submission.adjudicate(Rulebook::default());
    assert_eq!(
        outcome.get(&order).expect("Order should have outcome"),
        OrderOutcome::Illegal(IllegalOrder::NoUnit),
    );
}

/// https://webdiplomacy.net/doc/DATC_v3_0.html#6.B.14
#[test]
fn t6b14_building_with_unspecified_coast() {
    judge_build(Board::empty(), &[("RUS: F stp build", Some(BuildOutcome::InvalidTerrain))]);
}

/// https://webdiplomacy.net/doc/DATC_v3_0.html#6.H.1
#[test]
fn t6h01_no_supports_during_retreat() {
    assert!(
        "AUS: A ser supports F tri -> alb".parse::<MappedRetreatOrder>().is_err(),
        "Support commands are not allowed in the retreat phase"
    );
}

/// https://webdiplomacy.net/doc/DATC_v3_0.html#6.H.2
#[test]
fn t6h02_no_supports_from_retreating_unit() {
    judge(&[
        ("ENG: A lvp -> edi", None),
        ("ENG: F yor Supports A lvp -> edi", None),
        ("ENG: F nwy Hold", Some(Fails)),
        ("GER: A kie Supports A ruh -> hol", None),
        ("GER: A ruh -> hol", None),
        ("RUS: F edi Hold", Some(Fails)),
        ("RUS: A swe Supports A fin -> nwy", None),
        ("RUS: A fin -> nwy", None),
        ("RUS: F hol Hold", Some(Fails)),
    ]);
}

/// https://webdiplomacy.net/doc/DATC_v3_0.html#6.H.3
#[test]
fn t6h03_no_convoy_during_retreat() {
    assert!(
        "ENG: F nth convoys hol -> yor".parse::<MappedRetreatOrder>().is_err(),
        "Convoy commands are not allowed in the retreat phase"
    );
}

/// https://webdiplomacy.net/doc/DATC_v3_0.html#6.I.1
#[test]
fn t6i01_too_many_build_orders() {
    let world = board(&["GER: F den", "GER: A ruh", "GER: A pru"]);
    judge_build(
        world,
        &[
            ("GER: A war build", Some(BuildOutcome::InvalidProvince)),
            ("GER: A ber build", Some(BuildOutcome::Succeeds)),
            ("GER: A mun build", Some(BuildOutcome::AllBuildsUsed)),
        ],
    );
}

/// https://webdiplomacy.net/doc/DATC_v3_0.html#6.I.2
#[test]
fn t6i02_fleets_can_not_be_build_in_land_areas() {
    judge_build(Board::empty(), &[("RUS: F mos build", Some(BuildOutcome::InvalidTerrain))]);
}

/// https://webdiplomacy.net/doc/DATC_v3_0.html#6.I.3
#[test]
fn t6i03_supply_center_must_be_empty_for_building() {
    judge_build(board(&["GER: A ber"]), &[("GER: A ber build", Some(BuildOutcome::OccupiedProvince))]);
}

/// https://webdiplomacy.net/doc/DATC_v3_0.html#6.I.4
#[test]
fn t6i04_both_coasts_must_be_empty_for_building() {
    judge_build(
        board(&["RUS: F stp(sc)"]),
        &[("RUS: F stp(nc) build", Some(BuildOutcome::OccupiedProvince))],
    );
}

/// https://webdiplomacy.net/doc/DATC_v3_0.html#6.I.5
#[test]
fn t6i05_building_in_home_supply_center_that_is_not_owned() {
    let world = Board::empty().with_occupier(ProvinceKey::from("ber"), Nation::from("RUS"));
    judge_build(world, &[("GER: A ber build", Some(BuildOutcome::ForeignControlled))]);
}

/// https://webdiplomacy.net/doc/DATC_v3_0.html#6.I.6
#[test]
fn t6i06_building_in_owned_supply_center_that_is_not_a_home_supply_center() {
    let world = Board::empty().with_occupier(ProvinceKey::from("war"), Nation::from("GER"));
    judge_build(world, &[("GER: A war build", Some(BuildOutcome::InvalidProvince))]);
}

/// https://webdiplomacy.net/doc/DATC_v3_0.html#6.I.7
#[test]
fn t6i07_only_one_build_in_a_home_supply_center() {
    let world = board(&["RUS: F sev", "RUS: F stp(nc)"]);
    let (final_units, _) = judge_build(
        world,
        &[
            ("RUS: A mos build", Some(BuildOutcome::Succeeds)),
            ("RUS: A mos build", None),
            ("RUS: A war build", Some(BuildOutcome::Succeeds)),
        ],
    );
    assert_eq!(final_units.iter().map(|(_, units)| units.len()).sum::<usize>(), 4);
}

/// https://webdiplomacy.net/doc/DATC_v3_0.html#6.J.1
#[test]
fn datc_t6j01_too_many_remove_orders() {
    let world = Board::empty()
        .with_occupier(ProvinceKey::from("bre"), Nation::from("ENG"))
        .with_occupier(ProvinceKey::from("mar"), Nation::from("ITA"))
        .with_unit(unit_pos("FRA: A pic"))
        .with_unit(unit_pos("FRA: A par"));
    judge_build(
        world,
        &[
            ("FRA: F lyo disband", Some(BuildOutcome::DisbandingNonexistentUnit)),
            ("FRA: A pic disband", Some(BuildOutcome::Succeeds)),
            ("FRA: A par disband", Some(BuildOutcome::AllDisbandsUsed)),
        ],
    );
}

/// https://webdiplomacy.net/doc/DATC_v3_0.html#6.J.2
#[test]
fn t6j02_removing_the_same_unit_twice() {
    let world = board(&["ENG: F bre", "ITA: A mar", "FRA: A par", "FRA: F lyo", "FRA: A ruh"]);
    let (final_units, civil_disorder) = judge_build(
        world,
        &[("FRA: A par disband", Some(BuildOutcome::Succeeds)), ("FRA: A par disband", None)],
    );
    let france = final_units
        .iter()
        .find(|(n, _)| *n == Nation::from("FRA"))
        .expect("France should have units");
    assert_eq!(france.1.len(), 1);
    assert!(!civil_disorder.is_empty());
}

/// https://webdiplomacy.net/doc/DATC_v3_0.html#6.J.3
#[test]
fn t6j03_civil_disorder_two_armies_with_different_distance() {
    let world = Board::empty()
        .with_occupier(ProvinceKey::from("war"), Nation::from("GER"))
        .with_occupier(ProvinceKey::from("mos"), Nation::from("GER"))
        .with_occupier(ProvinceKey::from("sev"), Nation::from("TUR"))
        .with_unit(unit_pos("RUS: A lvn"))
        .with_unit(unit_pos("RUS: A pru"));
    let (_, civil_disorder) = judge_build(world, &[]);
    assert_eq!(civil_disorder, vec![(UnitType::Army, reg("pru"))]);
}

/// https://webdiplomacy.net/doc/DATC_v3_0.html#6.J.4
#[test]
fn t6j04_civil_disorder_two_armies_with_equal_distance() {
    let world = Board::empty()
        .with_occupier(ProvinceKey::from("stp"), Nation::from("ENG"))
        .with_occupier(ProvinceKey::from("war"), Nation::from("GER"))
        .with_occupier(ProvinceKey::from("sev"), Nation::from("TUR"))
        .with_unit(unit_pos("RUS: A lvn"))
        .with_unit(unit_pos("RUS: A ukr"));
    let (_, civil_disorder) = judge_build(world, &[]);
    assert_eq!(civil_disorder, vec![(UnitType::Army, reg("lvn"))]);
}

/// https://webdiplomacy.net/doc/DATC_v3_0.html#6.J.5
#[test]
fn t6j05_civil_disorder_two_fleets_with_different_distance() {
    let world = Board::empty()
        .with_occupier(ProvinceKey::from("mos"), Nation::from("ENG"))
        .with_occupier(ProvinceKey::from("war"), Nation::from("GER"))
        .with_occupier(ProvinceKey::from("sev"), Nation::from("TUR"))
        .with_unit(unit_pos("RUS: F ska"))
        .with_unit(unit_pos("RUS: F nao"));
    let (_, civil_disorder) = judge_build(world, &[]);
    assert_eq!(civil_disorder, vec![(UnitType::Fleet, reg("nao"))]);
}

/// https://webdiplomacy.net/doc/DATC_v3_0.html#6.J.6
#[test]
fn t6j06_civil_disorder_two_fleets_with_equal_distance() {
    let world = Board::empty()
        .with_occupier(ProvinceKey::from("stp"), Nation::from("ENG"))
        .with_occupier(ProvinceKey::from("mos"), Nation::from("ENG"))
        .with_occupier(ProvinceKey::from("war"), Nation::from("GER"))
        .with_occupier(ProvinceKey::from("sev"), Nation::from("TUR"))
        .with_occupier(ProvinceKey::from("mun"), Nation::from("RUS"))
        .with_unit(unit_pos("RUS: F bot"))
        .with_unit(unit_pos("RUS: F nth"));
    let (_, civil_disorder) = judge_build(world, &[]);
    assert_eq!(civil_disorder, vec![(UnitType::Fleet, reg("bot"))]);
}

/// https://webdiplomacy.net/doc/DATC_v3_0.html#6.J.7
#[test]
fn t6j07_civil_disorder_two_fleets_and_army_with_equal_distance() {
    let world = Board::empty()
        .with_occupier(ProvinceKey::from("mos"), Nation::from("ENG"))
        .with_occupier(ProvinceKey::from("sev"), Nation::from("TUR"))
        .with_unit(unit_pos("RUS: A boh"))
        .with_unit(unit_pos("RUS: F ska"))
        .with_unit(unit_pos("RUS: F nth"));
    let (_, civil_disorder) = judge_build(world, &[]);
    assert_eq!(civil_disorder, vec![(UnitType::Fleet, reg("nth"))]);
}

/// https://webdiplomacy.net/doc/DATC_v3_0.html#6.J.8
#[test]
fn t6j08_civil_disorder_a_fleet_with_shorter_distance_then_the_army() {
    let world = Board::empty()
        .with_occupier(ProvinceKey::from("stp"), Nation::from("ENG"))
        .with_occupier(ProvinceKey::from("mos"), Nation::from("ENG"))
        .with_occupier(ProvinceKey::from("sev"), Nation::from("TUR"))
        .with_unit(unit_pos("RUS: A tyr"))
        .with_unit(unit_pos("RUS: F bal"));
    let (_, civil_disorder) = judge_build(world, &[]);
    assert_eq!(civil_disorder, vec![(UnitType::Army, reg("tyr"))]);
}

/// https://webdiplomacy.net/doc/DATC_v3_0.html#6.J.9
#[test]
fn t6j09_civil_disorder_must_be_counted_from_both_coasts() {
    let world = Board::empty()
        .with_occupier(ProvinceKey::from("war"), Nation::from("GER"))
        .with_occupier(ProvinceKey::from("mos"), Nation::from("ENG"))
        .with_unit(unit_pos("RUS: A alb"))
        .with_unit(unit_pos("RUS: A sev"))
        .with_unit(unit_pos("RUS: F bal"));
    let (_, civil_disorder) = judge_build(world, &[]);
    assert_eq!(civil_disorder, vec![(UnitType::Army, reg("alb"))]);

    let world = Board::empty()
        .with_occupier(ProvinceKey::from("war"), Nation::from("GER"))
        .with_occupier(ProvinceKey::from("mos"), Nation::from("ENG"))
        .with_unit(unit_pos("RUS: A alb"))
        .with_unit(unit_pos("RUS: A sev"))
        .with_unit(unit_pos("RUS: F ska"));
    let (_, civil_disorder) = judge_build(world, &[]);
    assert_eq!(civil_disorder, vec![(UnitType::Army, reg("alb"))]);
}

/// https://webdiplomacy.net/doc/DATC_v3_0.html#6.J.10
#[test]
fn t6j10_civil_disorder_counting_convoying_distance() {
    let world = Board::empty()
        .with_occupier(ProvinceKey::from("ven"), Nation::from("AUS"))
        .with_occupier(ProvinceKey::from("rom"), Nation::from("FRA"))
        .with_unit(unit_pos("ITA: A pie"))
        .with_unit(unit_pos("ITA: A alb"));
    let (_, civil_disorder) = judge_build(world, &[]);
    assert_eq!(civil_disorder, vec![(UnitType::Army, reg("pie"))]);
}

/// https://webdiplomacy.net/doc/DATC_v3_0.html#6.J.11
#[test]
fn t6j11_distance_to_owned_supply_center() {
    let world = Board::empty()
        .with_occupier(ProvinceKey::from("ven"), Nation::from("AUS"))
        .with_occupier(ProvinceKey::from("rom"), Nation::from("FRA"))
        .with_occupier(ProvinceKey::from("nap"), Nation::from("AUS"))
        .with_unit(unit_pos("ITA: A war"))
        .with_unit(unit_pos("ITA: A tus"));
    let (_, civil_disorder) = judge_build(world, &[]);
    assert_eq!(civil_disorder, vec![(UnitType::Army, reg("tus"))]);
}

/// https://webdiplomacy.net/doc/DATC_v3_0.html#6.E.11
#[test]
fn t6e11_no_self_dislodgement_with_beleaguered_garrison_unit_swap_with_adjacent_convoying_and_two_coasts() {
    judge(&[
        ("FRA: A spa -> por via Convoy", Some(Succeeds)),
        ("FRA: F mao convoys spa -> por", None),
        ("FRA: F lyo Supports F por -> spa(nc)", None),
        ("GER: A mar Supports A gas -> spa", None),
        ("GER: A gas -> spa", Some(Fails)),
        ("ITA: F por -> spa(nc)", Some(Succeeds)),
        ("ITA: F wes Supports F por -> spa(nc)", None),
    ]);
}
