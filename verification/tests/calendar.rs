use diplomacy::calendar::Error;
use diplomacy::Phase::{Build, Main, Retreat};
use diplomacy::Season::{Fall, Spring, Winter};
use diplomacy::{Calendar, Time};

#[test]
fn iter() {
    let calendar = Calendar::new(
        Time::new(Spring, 1901, Main),
        vec![(Spring, Main), (Fall, Main), (Winter, Build)],
    )
    .unwrap();

    let upcoming = calendar.iter().take(10);

    assert_eq!(
        upcoming,
        vec![
            Time::new(Spring, 1901, Main),
            Time::new(Spring, 1901, Retreat),
            Time::new(Fall, 1901, Main),
            Time::new(Fall, 1901, Retreat),
            Time::new(Winter, 1901, Build),
            Time::new(Spring, 1902, Main),
            Time::new(Spring, 1902, Retreat),
            Time::new(Fall, 1902, Main),
            Time::new(Fall, 1902, Retreat),
            Time::new(Winter, 1902, Build),
        ]
    )
}

#[test]
fn iter_chaos_variant() {
    let calendar = Calendar::new(
        Time::new(Winter, 1900, Build),
        vec![(Spring, Main), (Fall, Main), (Winter, Build)],
    )
    .unwrap();

    let upcoming = calendar.iter().take(11);

    assert_eq!(
        upcoming,
        vec![
            Time::new(Winter, 1900, Build),
            Time::new(Spring, 1901, Main),
            Time::new(Spring, 1901, Retreat),
            Time::new(Fall, 1901, Main),
            Time::new(Fall, 1901, Retreat),
            Time::new(Winter, 1901, Build),
            Time::new(Spring, 1902, Main),
            Time::new(Spring, 1902, Retreat),
            Time::new(Fall, 1902, Main),
            Time::new(Fall, 1902, Retreat),
            Time::new(Winter, 1902, Build),
        ]
    )
}

#[test]
fn position_month_before_start() {
    let calendar = Calendar::new(
        Time::new(Winter, 1900, Build),
        vec![(Spring, Main), (Fall, Main), (Winter, Build)],
    )
    .unwrap();

    assert_eq!(calendar.position(&Time::new(Spring, 1900, Main)), None);
}

#[test]
fn position_and_nth_convert_both_ways() {
    let calendar = Calendar::new(
        Time::new(Fall, 1901, Main),
        vec![(Spring, Main), (Fall, Main), (Winter, Build)],
    )
    .unwrap();
    for turn in 0..20usize {
        let time = calendar.nth(turn);
        assert_eq!(calendar.position(&time), Some(turn));
    }
    assert_eq!(calendar.nth(3), Time::new(Spring, 1902, Main));
    assert_eq!(calendar.position(&Time::new(Winter, 1902, Build)), Some(7));
}

#[test]
fn calendar_errors() {
    assert!(matches!(
        Calendar::new(Time::new(Spring, 1901, Main), vec![]),
        Err(Error::NoMonths)
    ));
    assert!(matches!(
        Calendar::new(
            Time::new(Spring, 1901, Main),
            vec![(Spring, Main), (Fall, Main), (Spring, Main)]
        ),
        Err(Error::DuplicateMonth((Spring, Main)))
    ));
    assert!(matches!(
        Calendar::with_explicit_retreats(
            Time::new(Spring, 1901, Main),
            vec![(Spring, Retreat), (Spring, Retreat)]
        ),
        Err(Error::DuplicateMonth((Spring, Retreat)))
    ));
    assert!(matches!(
        Calendar::new(Time::new(Winter, 1901, Build), vec![(Spring, Main), (Fall, Main)]),
        Err(Error::StartingMonthNotInCalendar)
    ));
}

#[test]
fn calendar_repeats_every_year() {
    let calendar = Calendar::new(
        Time::new(Fall, 1901, Main),
        vec![(Spring, Main), (Fall, Main), (Winter, Build)],
    )
    .unwrap();
    // Retreat phases follow each main phase, so a year has five turns.
    for turn in 0..15usize {
        let now = calendar.nth(turn);
        let next = calendar.nth(turn + 5);
        assert_eq!(next, Time::new(now.season(), now.year() + 1, now.phase()));
    }
}
