use diplomacy::geo::{standard_map, ProvinceKey, RegionKey};
use diplomacy::judge::build::{Board, Ownerships, Submission as BuildSubmission};
use diplomacy::judge::build::OrderOutcome as BuildOutcome;
use diplomacy::judge::{
    Edition, MappedBuildOrder, MappedMainOrder, OrderState, Rulebook, Submission, WillUseConvoy,
};
use diplomacy::{Nation, UnitPosition, UnitType};

fn ord(s: &str) -> MappedMainOrder {
    s.parse().unwrap()
}

fn build_ord(s: &str) -> MappedBuildOrder {
    s.parse().unwrap()
}

fn unit_pos(s: &str) -> UnitPosition {
    s.parse().unwrap()
}

fn ownerships(entries: &[(&str, &str)]) -> Ownerships {
    let mut o = Ownerships::new();
    for (p, n) in entries {
        o.insert(ProvinceKey::from(p), Nation::from(n));
    }
    o
}

#[test]
fn orders_that_fail_on_their_own_terms_fail() {
    let map = standard_map();
    let orders = vec![
        ord("GER: F kie -> kie"),
        ord("AUS: F tri supports F tri"),
        ord("ITA: A rom convoys nap -> tun"),
        ord("FRA: F bre supports A mun -> ber"),
    ];
    let submission = Submission::with_inferred_state(&map, orders.clone());
    let outcome = submission.adjudicate(Rulebook::default());
    for o in &orders {
        assert_eq!(OrderState::from(&outcome.get(o).unwrap()), OrderState::Fails, "{:?}", o);
    }
}

#[test]
fn every_order_known_to_an_outcome_has_one() {
    let map = standard_map();
    let orders = vec![
        ord("ENG: F lon -> nth"),
        ord("GER: F lon -> eng"),
        ord("FRA: A par -> bur"),
        ord("FRA: A par hold"),
    ];
    let submission = Submission::new(
        &map,
        &vec![unit_pos("ENG: F lon"), unit_pos("FRA: A par")],
        orders,
    );
    let outcome = submission.adjudicate(Rulebook::default());
    let all = outcome.all_orders();
    assert_eq!(all.len(), 4);
    for o in all {
        assert!(outcome.get(o).is_some(), "{:?}", o);
    }
}

#[test]
fn convoy_policies_nest() {
    let plain = ord("ENG: A lon -> bel");
    let explicit = ord("ENG: A lon -> bel via convoy");
    let foreign_fleet = ord("FRA: F eng convoys lon -> bel");
    let own_fleet = ord("ENG: F eng convoys lon -> bel");
    let foreign_route = vec![&foreign_fleet];
    let own_route = vec![&own_fleet];

    let any = Rulebook::from(Edition::Edition1971);
    let same_country = Rulebook::from(Edition::Edition2023);
    let must_be_explicit = Rulebook::from(Edition::Dptg);

    assert!(any.will_use_convoy(&plain, &foreign_route));
    assert!(!same_country.will_use_convoy(&plain, &foreign_route));
    assert!(same_country.will_use_convoy(&plain, &own_route));
    assert!(!must_be_explicit.will_use_convoy(&plain, &own_route));
    for rules in [&any, &same_country, &must_be_explicit] {
        assert!(rules.will_use_convoy(&explicit, &foreign_route));
    }
}

#[test]
fn edition_names() {
    assert_eq!(Edition::Edition1971.name(), "1971");
    assert_eq!(Edition::Edition1982.name(), "1982");
    assert_eq!(Edition::Edition2023.name(), "2023");
    assert_eq!(Edition::Dptg.name(), "dptg");
}

#[test]
fn repeated_build_order_has_one_outcome() {
    let map = standard_map();
    let last = ownerships(&[("mos", "RUS"), ("war", "RUS"), ("sev", "RUS"), ("stp", "RUS")]);
    let world = Board::empty()
        .with_unit(unit_pos("RUS: F sev"))
        .with_unit(unit_pos("RUS: F stp(nc)"));
    let orders = vec![
        build_ord("RUS: A mos build"),
        build_ord("RUS: A war build"),
        build_ord("RUS: A mos build"),
    ];
    let submission = BuildSubmission::new(&map, &last, &world, orders);
    let outcome = submission.adjudicate();
    assert_eq!(outcome.get(&build_ord("RUS: A mos build")), Some(BuildOutcome::Succeeds));
    assert_eq!(outcome.get(&build_ord("RUS: A war build")), Some(BuildOutcome::Succeeds));
    let listed = outcome.order_outcomes();
    assert_eq!(listed.len(), 2);
    assert_eq!(outcome.to_final_unit_positions().len(), 4);
    assert!(outcome.to_civil_disorder().is_empty());
}

#[test]
fn builds_never_exceed_what_is_owed() {
    let map = standard_map();
    let last = ownerships(&[("ber", "GER"), ("kie", "GER"), ("mun", "GER")]);
    let world = Board::empty().with_unit(unit_pos("GER: A ruh")).with_unit(unit_pos("GER: A bur"));
    let orders = vec![
        build_ord("GER: A ber build"),
        build_ord("GER: F kie build"),
        build_ord("GER: A mun disband"),
        build_ord("FRA: A par build"),
    ];
    let submission = BuildSubmission::new(&map, &last, &world, orders);
    let outcome = submission.adjudicate();
    assert_eq!(outcome.get(&build_ord("GER: A ber build")), Some(BuildOutcome::Succeeds));
    assert_eq!(outcome.get(&build_ord("GER: F kie build")), Some(BuildOutcome::AllBuildsUsed));
    assert_eq!(
        outcome.get(&build_ord("GER: A mun disband")),
        Some(BuildOutcome::RedeploymentProhibited)
    );
    assert_eq!(
        outcome.get(&build_ord("FRA: A par build")),
        Some(BuildOutcome::RedeploymentProhibited)
    );
    let germany = outcome
        .final_units_by_nation()
        .iter()
        .find(|(n, _)| *n == Nation::from("GER"))
        .expect("Germany should have units")
        .1
        .clone();
    assert_eq!(germany.len(), 3);
    assert!(germany.contains(&(UnitType::Army, "ber".parse::<RegionKey>().unwrap())));
}

#[test]
fn disband_of_a_missing_or_foreign_unit_fails() {
    let map = standard_map();
    let last = ownerships(&[("ber", "GER"), ("par", "FRA")]);
    let world = Board::empty()
        .with_unit(unit_pos("GER: A ruh"))
        .with_unit(unit_pos("GER: A bur"))
        .with_unit(unit_pos("FRA: A pic"));
    let orders = vec![
        build_ord("GER: A pic disband"),
        build_ord("GER: A hol disband"),
        build_ord("GER: A ruh disband"),
    ];
    let submission = BuildSubmission::new(&map, &last, &world, orders);
    let outcome = submission.adjudicate();
    assert_eq!(
        outcome.get(&build_ord("GER: A pic disband")),
        Some(BuildOutcome::DisbandingForeignUnit)
    );
    assert_eq!(
        outcome.get(&build_ord("GER: A hol disband")),
        Some(BuildOutcome::DisbandingNonexistentUnit)
    );
    assert_eq!(outcome.get(&build_ord("GER: A ruh disband")), Some(BuildOutcome::Succeeds));
    assert!(outcome.to_civil_disorder().is_empty());
}

#[test]
fn nation_that_builds_outside_the_world_gets_its_units() {
    let map = standard_map();
    let last = ownerships(&[("par", "FRA")]);
    let world = Board::empty();
    let orders = vec![build_ord("FRA: A par build")];
    let submission = BuildSubmission::new(&map, &last, &world, orders);
    let outcome = submission.adjudicate();
    assert_eq!(outcome.get(&build_ord("FRA: A par build")), Some(BuildOutcome::Succeeds));
    let positions = outcome.to_final_unit_positions();
    assert_eq!(positions, vec![unit_pos("FRA: A par")]);
}

#[test]
fn to_initial_ownerships_for_standard_map() {
    let map = standard_map();
    let ownerships = diplomacy::judge::build::to_initial_ownerships(&map);

    assert_eq!(Some(&Nation::from("AUS")), ownerships.get(&ProvinceKey::from("bud")));

    assert_eq!(None, ownerships.get(&ProvinceKey::from("bel")));
}

#[test]
fn later_order_to_the_same_unit_is_discarded() {
    let map = standard_map();
    let orders = vec![ord("FRA: A par -> bur"), ord("FRA: A par hold"), ord("FRA: A par -> pic")];
    let submission = Submission::with_inferred_state(&map, orders.clone());
    assert_eq!(submission.adjudicated_orders(), vec![orders[0].clone()]);
    let outcome = submission.adjudicate(Rulebook::default());
    assert_eq!(outcome.illegal_orders().len(), 2);
    assert_eq!(
        outcome.get(&orders[1]),
        Some(diplomacy::judge::OrderOutcome::Illegal(diplomacy::judge::IllegalOrder::MultipleToSameUnit))
    );
    assert_eq!(OrderState::from(&outcome.get(&orders[0]).unwrap()), OrderState::Succeeds);
}

#[test]
fn mismatches_lists_the_orders_that_differ() {
    let map = standard_map();
    let orders = vec![ord("GER: A ber -> kie"), ord("GER: F kie -> ber"), ord("GER: A mun supports A ber -> kie")];
    let outcome = Submission::with_inferred_state(&map, orders.clone()).adjudicate(Rulebook::default());
    let expected = vec![
        (orders[0].clone(), OrderState::Fails),
        (orders[1].clone(), OrderState::Succeeds),
        (ord("GER: A mun hold"), OrderState::Succeeds),
    ];
    assert_eq!(diplomacy::judge::mismatches(&outcome, &expected), vec![1, 2]);
}

#[test]
fn nation_without_supply_centers_disbands_every_unit() {
    let map = standard_map();
    let last = ownerships(&[("ber", "GER")]);
    let world = Board::empty()
        .with_unit(unit_pos("GER: A ber"))
        .with_unit(unit_pos("FRA: A pic"))
        .with_unit(unit_pos("FRA: F eng"));
    let submission = BuildSubmission::new(&map, &last, &world, vec![]);
    let outcome = submission.adjudicate();
    let disorder = outcome.to_civil_disorder();
    assert_eq!(disorder.len(), 2);
    assert!(disorder.contains(&unit_pos("FRA: A pic")));
    assert!(disorder.contains(&unit_pos("FRA: F eng")));
    assert_eq!(outcome.to_final_unit_positions(), vec![unit_pos("GER: A ber")]);
}
