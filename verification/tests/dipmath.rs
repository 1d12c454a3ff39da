use diplomacy::geo::{standard_map, RegionKey};
use diplomacy::judge::{OrderState, Rulebook, Submission};
use diplomacy::order::{ConvoyedMove, MainCommand, MoveCommand, Order, SupportedOrder};
use diplomacy::{Nation, UnitType};
use std::str::FromStr;

fn reg(s: &str) -> RegionKey {
    RegionKey::from_str(s).unwrap()
}

fn mv(to: &str) -> MainCommand<RegionKey> {
    MainCommand::Move(MoveCommand::new(reg(to)))
}

#[test]
fn dipmath_figure9() {
    let map = standard_map();
    let eng = Nation::from("eng");
    let ger = Nation::from("ger");
    let rus = Nation::from("rus");

    let orders = Submission::with_inferred_state(
        &map,
        vec![
            Order::new(eng, UnitType::Fleet, reg("nwg"), mv("nth")),
            Order::new(ger.clone(), UnitType::Fleet, reg("nth"), mv("nwy")),
            Order::new(rus, UnitType::Fleet, reg("nwy"), mv("nwg")),
            Order::new(
                ger,
                UnitType::Fleet,
                reg("ska"),
                MainCommand::Support(SupportedOrder::Move(
                    UnitType::Fleet,
                    reg("nth"),
                    reg("nwy"),
                )),
            ),
        ],
    );

    let result = orders.adjudicate(Rulebook::default());

    for order in orders.submitted_orders() {
        assert_eq!(
            OrderState::from(&result.get(order).unwrap()),
            OrderState::Succeeds
        );
    }
}

#[test]
fn dipmath_figure6() {
    let map = standard_map();
    let aus = Nation::from("aus");
    let ger = Nation::from("ger");
    let rus = Nation::from("rus");

    let orders = Submission::with_inferred_state(
        &map,
        vec![
            Order::new(ger.clone(), UnitType::Army, reg("ber"), mv("sil")),
            Order::new(
                ger.clone(),
                UnitType::Army,
                reg("mun"),
                MainCommand::Support(SupportedOrder::Move(UnitType::Army, reg("ber"), reg("sil"))),
            ),
            Order::new(rus, UnitType::Army, reg("war"), mv("sil")),
            Order::new(aus, UnitType::Army, reg("boh"), mv("sil")),
        ],
    );

    assert!(map.find_border_between(&reg("ber"), &reg("sil")).is_some());
    assert!(map.find_border_between(&reg("war"), &reg("sil")).is_some());
    assert!(map.find_border_between(&reg("sil"), &reg("boh")).is_some());

    let result = orders.adjudicate(Rulebook::default());
    for o in orders.submitted_orders() {
        assert_eq!(
            OrderState::from(&result.get(o).unwrap()),
            if o.nation == ger {
                OrderState::Succeeds
            } else {
                OrderState::Fails
            }
        );
    }
}

#[test]
fn dipmath_figure16() {
    let map = standard_map();
    let tur = Nation::from("tur");
    let aus = Nation::from("aus");
    let ita = Nation::from("ita");

    let orders = Submission::with_inferred_state(
        &map,
        vec![
            Order::new(tur.clone(), UnitType::Fleet, reg("aeg"), mv("ion")),
            Order::new(
                tur,
                UnitType::Fleet,
                reg("gre"),
                MainCommand::Support(SupportedOrder::Move(UnitType::Fleet, reg("aeg"), reg("ion"))),
            ),
            Order::new(
                aus,
                UnitType::Fleet,
                reg("alb"),
                MainCommand::Support(SupportedOrder::Move(UnitType::Fleet, reg("aeg"), reg("ion"))),
            ),
            Order::new(ita.clone(), UnitType::Army, reg("tun"), mv("gre")),
            Order::new(
                ita.clone(),
                UnitType::Fleet,
                reg("ion"),
                MainCommand::Convoy(ConvoyedMove::new(reg("tun"), reg("gre"))),
            ),
        ],
    );

    let result = orders.adjudicate(Rulebook::default());
    for o in orders.submitted_orders() {
        assert_eq!(
            OrderState::from(&result.get(o).unwrap()),
            if o.nation != ita {
                OrderState::Succeeds
            } else {
                OrderState::Fails
            }
        );
    }
}
