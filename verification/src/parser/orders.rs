//! Parsing of written orders, such as `GER: A ber -> sil` or `ENG: F nth convoys lon -> bel`.
use super::words::{ci_eq, is_keyword, split_words, words_of};
use super::{Error, ErrorKind};
use crate::geo::region::{spec_parse_coast, spec_parse_region};
use crate::geo::{Coast, RegionKey, RegionName};
use crate::nation::Nation;
use crate::order::{
    BuildCommand, BuildOrder, ConvoyedMove, MainCommand, MainOrder, MainOrderView, MoveCommand,
    Order, OrderView, RetreatCommand, RetreatOrder, RetreatOrderView, SupportedOrder,
};
use crate::unit::{spec_parse_unit_type, trim_colons, trim_colons_exec, Unit, UnitPosition, UnitType};
use vstd::prelude::*;

verus! {

/// The `NATION: U region` words that start every order: the nation (with trailing colons
/// removed), the unit type and the region.
pub open spec fn spec_parse_prefix(w: Seq<Seq<char>>) -> Result<
    (Seq<char>, UnitType, RegionName),
    ErrorKind,
> {
    if w.len() < 3 {
        Err(ErrorKind::TooFewWords(3))
    } else {
        match spec_parse_unit_type(w[1]) {
            None => Err(ErrorKind::InvalidUnitType),
            Some(u) => match spec_parse_region(w[2]) {
                Err(k) => Err(k),
                Ok(r) => Ok((trim_colons(w[0]), u, r)),
            },
        }
    }
}

/// A word that is either of two lowercase keywords, in any case.
pub open spec fn is_either(w: Seq<char>, a: Seq<char>, b: Seq<char>) -> bool {
    ci_eq(w, a) || ci_eq(w, b)
}

/// The main-phase command written in words 3 and after of `w`.
pub open spec fn spec_parse_main_command(w: Seq<Seq<char>>) -> Result<
    MainCommand<RegionName>,
    ErrorKind,
> {
    let n = w.len();
    if n < 4 {
        Err(ErrorKind::TooFewWords(4))
    } else if is_either(w[3], "hold"@, "holds"@) {
        if n == 4 {
            Ok(MainCommand::Hold)
        } else {
            Err(ErrorKind::UnknownCommand)
        }
    } else if ci_eq(w[3], "->"@) {
        if n == 5 {
            match spec_parse_region(w[4]) {
                Err(k) => Err(k),
                Ok(d) => Ok(MainCommand::Move(MoveCommand { dest: d, use_convoy: None })),
            }
        } else if n == 7 && ci_eq(w[5], "via"@) && ci_eq(w[6], "convoy"@) {
            match spec_parse_region(w[4]) {
                Err(k) => Err(k),
                Ok(d) => Ok(MainCommand::Move(MoveCommand { dest: d, use_convoy: Some(true) })),
            }
        } else {
            Err(ErrorKind::MalformedMove)
        }
    } else if is_either(w[3], "supports"@, "support"@) {
        if n == 6 || (n == 8 && ci_eq(w[6], "->"@)) {
            match spec_parse_unit_type(w[4]) {
                None => Err(ErrorKind::InvalidUnitType),
                Some(u) => match spec_parse_region(w[5]) {
                    Err(k) => Err(k),
                    Ok(f) => if n == 6 {
                        Ok(MainCommand::Support(SupportedOrder::Hold(u, f)))
                    } else {
                        match spec_parse_region(w[7]) {
                            Err(k) => Err(k),
                            Ok(t) => Ok(MainCommand::Support(SupportedOrder::Move(u, f, t))),
                        }
                    },
                },
            }
        } else {
            Err(ErrorKind::MalformedSupport)
        }
    } else if is_either(w[3], "convoys"@, "convoy"@) {
        if n == 7 && ci_eq(w[5], "->"@) {
            match spec_parse_region(w[4]) {
                Err(k) => Err(k),
                Ok(f) => match spec_parse_region(w[6]) {
                    Err(k) => Err(k),
                    Ok(t) => Ok(MainCommand::Convoy(ConvoyedMove(f, t))),
                },
            }
        } else if n == 8 && ci_eq(w[6], "->"@) && spec_parse_unit_type(w[4]) == Some(
            UnitType::Army,
        ) {
            match spec_parse_region(w[5]) {
                Err(k) => Err(k),
                Ok(f) => match spec_parse_region(w[7]) {
                    Err(k) => Err(k),
                    Ok(t) => Ok(MainCommand::Convoy(ConvoyedMove(f, t))),
                },
            }
        } else {
            Err(ErrorKind::MalformedConvoy)
        }
    } else {
        Err(ErrorKind::UnknownCommand)
    }
}

/// The main-phase order written in `s`.
pub open spec fn spec_parse_main_order(s: Seq<char>) -> Result<MainOrderView, ErrorKind> {
    let w = words_of(s);
    match spec_parse_prefix(w) {
        Err(k) => Err(k),
        Ok((n, u, r)) => match spec_parse_main_command(w) {
            Err(k) => Err(k),
            Ok(c) => Ok(OrderView { nation: n, unit_type: u, region: r, command: c }),
        },
    }
}

/// The retreat-phase command written in words 3 and after of `w`.
pub open spec fn spec_parse_retreat_command(w: Seq<Seq<char>>) -> Result<
    RetreatCommand<RegionName>,
    ErrorKind,
> {
    let n = w.len();
    if n < 4 {
        Err(ErrorKind::TooFewWords(4))
    } else if n == 4 && is_either(w[3], "hold"@, "holds"@) {
        Ok(RetreatCommand::Hold)
    } else if n == 5 && ci_eq(w[3], "->"@) {
        match spec_parse_region(w[4]) {
            Err(k) => Err(k),
            Ok(d) => Ok(RetreatCommand::Move(d)),
        }
    } else {
        Err(ErrorKind::UnknownCommand)
    }
}

/// The retreat-phase order written in `s`.
pub open spec fn spec_parse_retreat_order(s: Seq<char>) -> Result<RetreatOrderView, ErrorKind> {
    let w = words_of(s);
    match spec_parse_prefix(w) {
        Err(k) => Err(k),
        Ok((n, u, r)) => match spec_parse_retreat_command(w) {
            Err(k) => Err(k),
            Ok(c) => Ok(OrderView { nation: n, unit_type: u, region: r, command: c }),
        },
    }
}

/// The build-phase command written in words 3 and after of `w`.
pub open spec fn spec_parse_build_command(w: Seq<Seq<char>>) -> Result<BuildCommand, ErrorKind> {
    let n = w.len();
    if n < 4 {
        Err(ErrorKind::TooFewWords(4))
    } else if n == 4 && ci_eq(w[3], "build"@) {
        Ok(BuildCommand::Build)
    } else if n == 4 && ci_eq(w[3], "disband"@) {
        Ok(BuildCommand::Disband)
    } else {
        Err(ErrorKind::UnknownCommand)
    }
}

/// The build-phase order written in `s`.
pub open spec fn spec_parse_build_order(s: Seq<char>) -> Result<
    OrderView<RegionName, BuildCommand>,
    ErrorKind,
> {
    let w = words_of(s);
    match spec_parse_prefix(w) {
        Err(k) => Err(k),
        Ok((n, u, r)) => match spec_parse_build_command(w) {
            Err(k) => Err(k),
            Ok(c) => Ok(OrderView { nation: n, unit_type: u, region: r, command: c }),
        },
    }
}

/// The unit position written in `s` as `NATION: U region`; later words are ignored.
pub open spec fn spec_parse_unit_position(s: Seq<char>) -> Result<
    ((Seq<char>, UnitType), RegionName),
    ErrorKind,
> {
    match spec_parse_prefix(words_of(s)) {
        Err(k) => Err(k),
        Ok((n, u, r)) => Ok(((n, u), r)),
    }
}

fn parse_region(w: &str) -> (r: Result<RegionKey, Error>)
    ensures
        match r {
            Ok(k) => spec_parse_region(w@) == Ok::<RegionName, ErrorKind>(k@),
            Err(e) => spec_parse_region(w@) == Err::<RegionName, ErrorKind>(e.spec_kind()),
        },
{
    RegionKey::parse(w)
}

fn parse_prefix(s: &str, words: &Vec<&str>) -> (r: Result<(Nation, UnitType, RegionKey), Error>)
    requires
        words@.map_values(|w: &str| w@) == words_of(s@),
    ensures
        match r {
            Ok((n, u, k)) => spec_parse_prefix(words_of(s@)) == Ok::<
                (Seq<char>, UnitType, RegionName),
                ErrorKind,
            >((n@, u, k@)),
            Err(e) => spec_parse_prefix(words_of(s@)) == Err::<
                (Seq<char>, UnitType, RegionName),
                ErrorKind,
            >(e.spec_kind()),
        },
{
    let ghost w = words_of(s@);
    if words.len() < 3 {
        return Err(Error::new(ErrorKind::TooFewWords(3), s));
    }
    proof {
        assert(w[0] == words@[0]@);
        assert(w[1] == words@[1]@);
        assert(w[2] == words@[2]@);
    }
    let unit_type = match UnitType::parse(words[1]) {
        Ok(u) => u,
        Err(e) => {
            return Err(e);
        },
    };
    let region = match parse_region(words[2]) {
        Ok(r) => r,
        Err(e) => {
            return Err(e);
        },
    };
    let nation = Nation::from(trim_colons_exec(words[0]));
    Ok((nation, unit_type, region))
}

/// The words of `s`, related to the model of its words.
pub open spec fn words_match(s: &str, words: &Vec<&str>) -> bool {
    words@.map_values(|w: &str| w@) == words_of(s@) && forall|i: int|
        0 <= i < words@.len() ==> words_of(s@)[i] == words@[i]@
}

fn parse_move_command(s: &str, words: &Vec<&str>) -> (r: Result<MainCommand<RegionKey>, Error>)
    requires
        words_match(s, words),
        words@.len() >= 4,
        !is_either(words_of(s@)[3], "hold"@, "holds"@),
        ci_eq(words_of(s@)[3], "->"@),
    ensures
        match r {
            Ok(c) => spec_parse_main_command(words_of(s@)) == Ok::<
                MainCommand<RegionName>,
                ErrorKind,
            >(c@),
            Err(e) => spec_parse_main_command(words_of(s@)) == Err::<
                MainCommand<RegionName>,
                ErrorKind,
            >(e.spec_kind()),
        },
{
    let n = words.len();
    if n == 5 {
        match parse_region(words[4]) {
            Ok(d) => Ok(MainCommand::Move(MoveCommand::new(d))),
            Err(e) => Err(e),
        }
    } else if n == 7 && is_keyword(words[5], "via") && is_keyword(words[6], "convoy") {
        match parse_region(words[4]) {
            Ok(d) => Ok(MainCommand::Move(MoveCommand::with_mandatory_convoy(d))),
            Err(e) => Err(e),
        }
    } else {
        Err(Error::new(ErrorKind::MalformedMove, s))
    }
}

fn parse_support_command(s: &str, words: &Vec<&str>) -> (r: Result<MainCommand<RegionKey>, Error>)
    requires
        words_match(s, words),
        words@.len() >= 4,
        !is_either(words_of(s@)[3], "hold"@, "holds"@),
        !ci_eq(words_of(s@)[3], "->"@),
        is_either(words_of(s@)[3], "supports"@, "support"@),
    ensures
        match r {
            Ok(c) => spec_parse_main_command(words_of(s@)) == Ok::<
                MainCommand<RegionName>,
                ErrorKind,
            >(c@),
            Err(e) => spec_parse_main_command(words_of(s@)) == Err::<
                MainCommand<RegionName>,
                ErrorKind,
            >(e.spec_kind()),
        },
{
    let n = words.len();
    if n == 6 || (n == 8 && is_keyword(words[6], "->")) {
        let u = match UnitType::parse(words[4]) {
            Ok(u) => u,
            Err(e) => {
                return Err(e);
            },
        };
        let f = match parse_region(words[5]) {
            Ok(f) => f,
            Err(e) => {
                return Err(e);
            },
        };
        if n == 6 {
            Ok(MainCommand::Support(SupportedOrder::Hold(u, f)))
        } else {
            match parse_region(words[7]) {
                Ok(t) => Ok(MainCommand::Support(SupportedOrder::Move(u, f, t))),
                Err(e) => Err(e),
            }
        }
    } else {
        Err(Error::new(ErrorKind::MalformedSupport, s))
    }
}

fn parse_convoy_command(s: &str, words: &Vec<&str>) -> (r: Result<MainCommand<RegionKey>, Error>)
    requires
        words_match(s, words),
        words@.len() >= 4,
        !is_either(words_of(s@)[3], "hold"@, "holds"@),
        !ci_eq(words_of(s@)[3], "->"@),
        !is_either(words_of(s@)[3], "supports"@, "support"@),
        is_either(words_of(s@)[3], "convoys"@, "convoy"@),
    ensures
        match r {
            Ok(c) => spec_parse_main_command(words_of(s@)) == Ok::<
                MainCommand<RegionName>,
                ErrorKind,
            >(c@),
            Err(e) => spec_parse_main_command(words_of(s@)) == Err::<
                MainCommand<RegionName>,
                ErrorKind,
            >(e.spec_kind()),
        },
{
    let n = words.len();
    let long_form = if n == 8 && is_keyword(words[6], "->") {
        match UnitType::parse(words[4]) {
            Ok(UnitType::Army) => true,
            _ => false,
        }
    } else {
        false
    };
    let (fi, ti): (usize, usize) = if n == 7 && is_keyword(words[5], "->") {
        (4, 6)
    } else if long_form {
        (5, 7)
    } else {
        return Err(Error::new(ErrorKind::MalformedConvoy, s));
    };
    let f = match parse_region(words[fi]) {
        Ok(f) => f,
        Err(e) => {
            return Err(e);
        },
    };
    match parse_region(words[ti]) {
        Ok(t) => Ok(MainCommand::Convoy(ConvoyedMove(f, t))),
        Err(e) => Err(e),
    }
}

fn parse_main_command(s: &str, words: &Vec<&str>) -> (r: Result<MainCommand<RegionKey>, Error>)
    requires
        words_match(s, words),
    ensures
        match r {
            Ok(c) => spec_parse_main_command(words_of(s@)) == Ok::<
                MainCommand<RegionName>,
                ErrorKind,
            >(c@),
            Err(e) => spec_parse_main_command(words_of(s@)) == Err::<
                MainCommand<RegionName>,
                ErrorKind,
            >(e.spec_kind()),
        },
{
    let n = words.len();
    if n < 4 {
        return Err(Error::new(ErrorKind::TooFewWords(4), s));
    }
    let k = words[3];
    if is_keyword(k, "hold") || is_keyword(k, "holds") {
        if n == 4 {
            Ok(MainCommand::Hold)
        } else {
            Err(Error::new(ErrorKind::UnknownCommand, s))
        }
    } else if is_keyword(k, "->") {
        parse_move_command(s, words)
    } else if is_keyword(k, "supports") || is_keyword(k, "support") {
        parse_support_command(s, words)
    } else if is_keyword(k, "convoys") || is_keyword(k, "convoy") {
        parse_convoy_command(s, words)
    } else {
        Err(Error::new(ErrorKind::UnknownCommand, s))
    }
}

proof fn lemma_words_match(s: &str, words: &Vec<&str>)
    requires
        words@.map_values(|w: &str| w@) == words_of(s@),
    ensures
        words_match(s, words),
{
    assert forall|i: int| 0 <= i < words@.len() implies words_of(s@)[i] == words@[i]@ by {}
}

/// Parses a main-phase order such as `GER: A ber -> sil`.
pub fn parse_main_order(s: &str) -> (r: Result<MainOrder<RegionKey>, Error>)
    ensures
        match r {
            Ok(o) => spec_parse_main_order(s@) == Ok::<MainOrderView, ErrorKind>(o@),
            Err(e) => spec_parse_main_order(s@) == Err::<MainOrderView, ErrorKind>(e.spec_kind()),
        },
{
    let words = split_words(s);
    proof {
        lemma_words_match(s, &words);
    }
    let (nation, unit_type, region) = match parse_prefix(s, &words) {
        Ok(p) => p,
        Err(e) => {
            return Err(e);
        },
    };
    match parse_main_command(s, &words) {
        Ok(command) => Ok(Order::new(nation, unit_type, region, command)),
        Err(e) => Err(e),
    }
}

/// Parses a retreat-phase order such as `AUS: A vie -> boh`.
pub fn parse_retreat_order(s: &str) -> (r: Result<RetreatOrder<RegionKey>, Error>)
    ensures
        match r {
            Ok(o) => spec_parse_retreat_order(s@) == Ok::<RetreatOrderView, ErrorKind>(o@),
            Err(e) => spec_parse_retreat_order(s@) == Err::<RetreatOrderView, ErrorKind>(
                e.spec_kind(),
            ),
        },
{
    let words = split_words(s);
    let ghost w = words_of(s@);
    let (nation, unit_type, region) = match parse_prefix(s, &words) {
        Ok(p) => p,
        Err(e) => {
            return Err(e);
        },
    };
    let n = words.len();
    proof {
        assert(n == w.len());
        assert forall|i: int| 0 <= i < n implies w[i] == words@[i]@ by {}
    }
    if n < 4 {
        return Err(Error::new(ErrorKind::TooFewWords(4), s));
    }
    let command = if n == 4 && (is_keyword(words[3], "hold") || is_keyword(words[3], "holds")) {
        RetreatCommand::Hold
    } else if n == 5 && is_keyword(words[3], "->") {
        match parse_region(words[4]) {
            Ok(d) => RetreatCommand::Move(d),
            Err(e) => {
                return Err(e);
            },
        }
    } else {
        return Err(Error::new(ErrorKind::UnknownCommand, s));
    };
    Ok(Order::new(nation, unit_type, region, command))
}

/// Parses a build-phase order such as `GER: A ber build`.
pub fn parse_build_order(s: &str) -> (r: Result<BuildOrder<RegionKey>, Error>)
    ensures
        match r {
            Ok(o) => spec_parse_build_order(s@) == Ok::<OrderView<RegionName, BuildCommand>, ErrorKind>(
                o@,
            ),
            Err(e) => spec_parse_build_order(s@) == Err::<
                OrderView<RegionName, BuildCommand>,
                ErrorKind,
            >(e.spec_kind()),
        },
{
    let words = split_words(s);
    let ghost w = words_of(s@);
    let (nation, unit_type, region) = match parse_prefix(s, &words) {
        Ok(p) => p,
        Err(e) => {
            return Err(e);
        },
    };
    let n = words.len();
    proof {
        assert(n == w.len());
        assert forall|i: int| 0 <= i < n implies w[i] == words@[i]@ by {}
    }
    if n < 4 {
        return Err(Error::new(ErrorKind::TooFewWords(4), s));
    }
    let command = if n == 4 && is_keyword(words[3], "build") {
        BuildCommand::Build
    } else if n == 4 && is_keyword(words[3], "disband") {
        BuildCommand::Disband
    } else {
        return Err(Error::new(ErrorKind::UnknownCommand, s));
    };
    Ok(Order::new(nation, unit_type, region, command))
}

/// Parses a unit position such as `FRA: F bre`.
pub fn parse_unit_position(s: &str) -> (r: Result<UnitPosition<RegionKey>, Error>)
    ensures
        match r {
            Ok(p) => spec_parse_unit_position(s@) == Ok::<
                ((Seq<char>, UnitType), RegionName),
                ErrorKind,
            >(p@),
            Err(e) => spec_parse_unit_position(s@) == Err::<
                ((Seq<char>, UnitType), RegionName),
                ErrorKind,
            >(e.spec_kind()),
        },
{
    let words = split_words(s);
    match parse_prefix(s, &words) {
        Ok((nation, unit_type, region)) => Ok(UnitPosition::new(Unit::new(nation, unit_type), region)),
        Err(e) => Err(e),
    }
}

impl core::str::FromStr for Order<RegionKey, MainCommand<RegionKey>> {
    type Err = Error;

    fn from_str(s: &str) -> (r: Result<Self, Error>)
        ensures
            match r {
                Ok(o) => spec_parse_main_order(s@) == Ok::<MainOrderView, ErrorKind>(o@),
                Err(e) => spec_parse_main_order(s@) == Err::<MainOrderView, ErrorKind>(e.spec_kind()),
            },
    {
        parse_main_order(s)
    }
}

impl core::str::FromStr for Order<RegionKey, RetreatCommand<RegionKey>> {
    type Err = Error;

    fn from_str(s: &str) -> (r: Result<Self, Error>)
        ensures
            match r {
                Ok(o) => spec_parse_retreat_order(s@) == Ok::<RetreatOrderView, ErrorKind>(o@),
                Err(e) => spec_parse_retreat_order(s@) == Err::<RetreatOrderView, ErrorKind>(e.spec_kind()),
            },
    {
        parse_retreat_order(s)
    }
}

impl core::str::FromStr for Order<RegionKey, BuildCommand> {
    type Err = Error;

    fn from_str(s: &str) -> (r: Result<Self, Error>)
        ensures
            match r {
                Ok(o) => spec_parse_build_order(s@) == Ok::<OrderView<RegionName, BuildCommand>, ErrorKind>(o@),
                Err(e) => spec_parse_build_order(s@) == Err::<OrderView<RegionName, BuildCommand>, ErrorKind>(
                    e.spec_kind(),
                ),
            },
    {
        parse_build_order(s)
    }
}

impl core::str::FromStr for UnitPosition<RegionKey> {
    type Err = Error;

    fn from_str(s: &str) -> (r: Result<Self, Error>)
        ensures
            match r {
                Ok(p) => spec_parse_unit_position(s@) == Ok::<((Seq<char>, UnitType), RegionName), ErrorKind>(p@),
                Err(e) => spec_parse_unit_position(s@) == Err::<((Seq<char>, UnitType), RegionName), ErrorKind>(
                    e.spec_kind(),
                ),
            },
    {
        parse_unit_position(s)
    }
}

impl core::str::FromStr for RegionKey {
    type Err = Error;

    fn from_str(s: &str) -> (r: Result<Self, Error>)
        ensures
            match r {
                Ok(k) => spec_parse_region(s@) == Ok::<RegionName, ErrorKind>(k@),
                Err(e) => spec_parse_region(s@) == Err::<RegionName, ErrorKind>(e.spec_kind()),
            },
    {
        RegionKey::parse(s)
    }
}

impl core::str::FromStr for Coast {
    type Err = Error;

    fn from_str(s: &str) -> (r: Result<Self, Error>)
        ensures
            match r {
                Ok(c) => spec_parse_coast(s@) == Some(c),
                Err(e) => spec_parse_coast(s@) is None && e.spec_kind() == ErrorKind::BadCoast && e.spec_input() == s@,
            },
    {
        Coast::parse(s)
    }
}

impl core::str::FromStr for UnitType {
    type Err = Error;

    fn from_str(s: &str) -> (r: Result<Self, Error>)
        ensures
            match r {
                Ok(u) => spec_parse_unit_type(s@) == Some(u),
                Err(e) => spec_parse_unit_type(s@) is None && e.spec_kind() == ErrorKind::InvalidUnitType,
            },
    {
        UnitType::parse(s)
    }
}

} // verus!
