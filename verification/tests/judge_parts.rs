use diplomacy::geo::{standard_map, ProvinceKey, RegionKey};
use diplomacy::judge::calc::max_prevent_result;
use diplomacy::judge::convoy::route_steps;
use diplomacy::judge::support::{can_reach, find_for};
use diplomacy::judge::{Context, MappedMainOrder, Prevent, ResolverState, Rulebook};
use diplomacy::order::{ConvoyedMove, MainCommand, MoveCommand, Order, SupportedOrder};
use diplomacy::{Nation, UnitType};
use std::str::FromStr;

fn reg(s: &str) -> RegionKey {
    RegionKey::from_str(s).unwrap()
}

fn parse_all(orders: &[&str]) -> Vec<MappedMainOrder> {
    orders
        .iter()
        .map(|ord| ord.parse::<MappedMainOrder>().unwrap())
        .collect()
}

#[test]
fn is_support_successful() {
    let map = standard_map();
    let ger = Nation::from("ger");
    let supp_com = SupportedOrder::Move(UnitType::Fleet, reg("nth"), reg("nwy"));
    let orders = vec![
        Order::new(
            ger.clone(),
            UnitType::Fleet,
            reg("ska"),
            MainCommand::Support(supp_com.clone()),
        ),
        Order::new(
            ger,
            UnitType::Fleet,
            reg("nth"),
            MainCommand::Move(MoveCommand::new(reg("nwy"))),
        ),
    ];

    assert!(supp_com.matches_order(&orders[1]));
    assert!(can_reach(&map, &orders[0]));

    let resolver_ctx = Context::new(&map, Rulebook::default(), &orders);
    let mut res_state = ResolverState::new();
    let supporters = find_for(&resolver_ctx, &mut res_state, 1);
    assert!(!supporters.is_empty());
}

#[test]
fn support_t6b04_support_to_unreachable_coast_allowed() {
    let map = standard_map();
    let fra = Nation::from("fra");
    let spa_nc = RegionKey::from_str("spa(nc)").unwrap();
    let supp_com = SupportedOrder::Move(UnitType::Fleet, reg("gas"), spa_nc.clone());
    let orders = vec![
        Order::new(
            fra.clone(),
            UnitType::Fleet,
            reg("gas"),
            MainCommand::Move(MoveCommand::new(spa_nc)),
        ),
        Order::new(fra, UnitType::Fleet, reg("mar"), MainCommand::Support(supp_com.clone())),
        Order::new(
            Nation::from("ita"),
            UnitType::Fleet,
            reg("wes"),
            MainCommand::Move(MoveCommand::new(reg("spa(sc)"))),
        ),
    ];

    assert!(supp_com.matches_order(&orders[0]));
    assert!(can_reach(&map, &orders[1]));
}

#[test]
fn t6e01_prevent_strengths() {
    let map = standard_map();
    let orders = parse_all(&[
        "GER: A ber -> pru",
        "GER: F kie -> ber",
        "GER: A sil supports A ber -> pru",
        "RUS: A pru -> ber",
    ]);

    let context = Context::new(&map, Rulebook::default(), &orders);
    let mut state = ResolverState::new();

    assert_eq!(
        max_prevent_result(&context, &mut state, 1),
        Some(Prevent::LostHeadToHead)
    );
}

#[test]
fn t6g16_prevent_strengths() {
    let map = standard_map();
    let orders = parse_all(&[
        "ENG: A nwy -> swe",
        "ENG: A den Supports A nwy -> swe",
        "ENG: F bal Supports A nwy -> swe",
        "ENG: F nth -> nwy",
        "RUS: A swe -> nwy via Convoy",
        "RUS: F ska convoys swe -> nwy",
        "RUS: F nwg Supports A swe -> nwy",
    ]);

    let context = Context::new(&map, Rulebook::default(), &orders);
    let mut state = ResolverState::new();
    let nth_prevent = max_prevent_result(&context, &mut state, 3);
    let swe_prevent = max_prevent_result(&context, &mut state, 4);

    assert_eq!(nth_prevent, Some(Prevent::Prevents(4, vec![6])));
    assert_eq!(swe_prevent, Some(Prevent::Prevents(3, vec![])));
}

fn convoy(l: &str, f: &str, t: &str) -> MappedMainOrder {
    Order::new(
        Nation::from("eng"),
        UnitType::Fleet,
        RegionKey::new(ProvinceKey::new(l), None),
        MainCommand::Convoy(ConvoyedMove::new(
            RegionKey::new(ProvinceKey::new(f), None),
            RegionKey::new(ProvinceKey::new(t), None),
        )),
    )
}

#[test]
fn pathfinder() {
    let map = standard_map();
    let convoys = vec![
        convoy("ska", "lon", "swe"),
        convoy("eng", "lon", "swe"),
        convoy("nth", "lon", "swe"),
        convoy("nwg", "lon", "swe"),
    ];

    let routes = route_steps(
        &map,
        &convoys,
        &ProvinceKey::new("lon"),
        &ProvinceKey::new("swe"),
    );
    for r in &routes {
        println!("CHAIN");
        for o in r.iter() {
            println!("  {}", convoys[*o].to_string());
        }
    }

    assert_eq!(2, routes.len());
}
