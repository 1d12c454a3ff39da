use super::border::Border;
use super::map::WorldMap;
use super::province::{Province, SupplyCenter, SupplyCenterView};
use super::region::{Coast, ProvinceKey, Region, RegionKey, RegionName, Terrain};
use crate::judge::build::rules::spec_is_home_sc;
use crate::judge::build::world::home_owner;
use super::map::{first_border_between, region_key_of, MapView};
use super::border::border_connects;
use crate::unit::{spec_can_occupy, UnitType};
use crate::nation::Nation;
use vstd::prelude::*;

verus! {

/// The provinces of the standard map, with their supply centers, appended to `s` in map order.
pub open spec fn with_standard_provinces(
    s: Seq<(Seq<char>, SupplyCenterView)>,
) -> Seq<(Seq<char>, SupplyCenterView)> {
    s
        .push(("adr"@, SupplyCenterView::Absent))
        .push(("aeg"@, SupplyCenterView::Absent))
        .push(("alb"@, SupplyCenterView::Absent))
        .push(("ank"@, SupplyCenterView::Home("TUR"@)))
        .push(("apu"@, SupplyCenterView::Absent))
        .push(("arm"@, SupplyCenterView::Absent))
        .push(("bal"@, SupplyCenterView::Absent))
        .push(("bar"@, SupplyCenterView::Absent))
        .push(("bel"@, SupplyCenterView::Neutral))
        .push(("ber"@, SupplyCenterView::Home("GER"@)))
        .push(("bla"@, SupplyCenterView::Absent))
        .push(("boh"@, SupplyCenterView::Absent))
        .push(("bot"@, SupplyCenterView::Absent))
        .push(("bre"@, SupplyCenterView::Home("FRA"@)))
        .push(("bud"@, SupplyCenterView::Home("AUS"@)))
        .push(("bul"@, SupplyCenterView::Neutral))
        .push(("bur"@, SupplyCenterView::Absent))
        .push(("cly"@, SupplyCenterView::Absent))
        .push(("con"@, SupplyCenterView::Home("TUR"@)))
        .push(("den"@, SupplyCenterView::Neutral))
        .push(("eas"@, SupplyCenterView::Absent))
        .push(("edi"@, SupplyCenterView::Home("ENG"@)))
        .push(("eng"@, SupplyCenterView::Absent))
        .push(("fin"@, SupplyCenterView::Absent))
        .push(("gal"@, SupplyCenterView::Absent))
        .push(("gas"@, SupplyCenterView::Absent))
        .push(("gre"@, SupplyCenterView::Neutral))
        .push(("hel"@, SupplyCenterView::Absent))
        .push(("hol"@, SupplyCenterView::Neutral))
        .push(("ion"@, SupplyCenterView::Absent))
        .push(("iri"@, SupplyCenterView::Absent))
        .push(("kie"@, SupplyCenterView::Home("GER"@)))
        .push(("lon"@, SupplyCenterView::Home("ENG"@)))
        .push(("lvn"@, SupplyCenterView::Absent))
        .push(("lvp"@, SupplyCenterView::Home("ENG"@)))
        .push(("lyo"@, SupplyCenterView::Absent))
        .push(("mao"@, SupplyCenterView::Absent))
        .push(("mar"@, SupplyCenterView::Home("FRA"@)))
        .push(("mos"@, SupplyCenterView::Home("RUS"@)))
        .push(("mun"@, SupplyCenterView::Home("GER"@)))
        .push(("naf"@, SupplyCenterView::Absent))
        .push(("nao"@, SupplyCenterView::Absent))
        .push(("nap"@, SupplyCenterView::Home("ITA"@)))
        .push(("nth"@, SupplyCenterView::Absent))
        .push(("nwg"@, SupplyCenterView::Absent))
        .push(("nwy"@, SupplyCenterView::Neutral))
        .push(("par"@, SupplyCenterView::Home("FRA"@)))
        .push(("pic"@, SupplyCenterView::Absent))
        .push(("pie"@, SupplyCenterView::Absent))
        .push(("por"@, SupplyCenterView::Neutral))
        .push(("pru"@, SupplyCenterView::Absent))
        .push(("rom"@, SupplyCenterView::Home("ITA"@)))
        .push(("ruh"@, SupplyCenterView::Absent))
        .push(("rum"@, SupplyCenterView::Neutral))
        .push(("ser"@, SupplyCenterView::Neutral))
        .push(("sev"@, SupplyCenterView::Home("RUS"@)))
        .push(("sil"@, SupplyCenterView::Absent))
        .push(("ska"@, SupplyCenterView::Absent))
        .push(("smy"@, SupplyCenterView::Home("TUR"@)))
        .push(("spa"@, SupplyCenterView::Neutral))
        .push(("stp"@, SupplyCenterView::Home("RUS"@)))
        .push(("swe"@, SupplyCenterView::Neutral))
        .push(("syr"@, SupplyCenterView::Absent))
        .push(("tri"@, SupplyCenterView::Home("AUS"@)))
        .push(("tun"@, SupplyCenterView::Neutral))
        .push(("tus"@, SupplyCenterView::Absent))
        .push(("tyr"@, SupplyCenterView::Absent))
        .push(("tys"@, SupplyCenterView::Absent))
        .push(("ukr"@, SupplyCenterView::Absent))
        .push(("ven"@, SupplyCenterView::Home("ITA"@)))
        .push(("vie"@, SupplyCenterView::Home("AUS"@)))
        .push(("wal"@, SupplyCenterView::Absent))
        .push(("war"@, SupplyCenterView::Home("RUS"@)))
        .push(("wes"@, SupplyCenterView::Absent))
        .push(("yor"@, SupplyCenterView::Absent))
}

/// The regions of the standard map appended to `s` in map order.
pub open spec fn with_standard_regions(
    s: Seq<(Seq<char>, Option<Coast>, Terrain)>,
) -> Seq<(Seq<char>, Option<Coast>, Terrain)> {
    s
        .push(("adr"@, None, Terrain::Sea))
        .push(("aeg"@, None, Terrain::Sea))
        .push(("alb"@, None, Terrain::Coast))
        .push(("ank"@, None, Terrain::Coast))
        .push(("apu"@, None, Terrain::Coast))
        .push(("arm"@, None, Terrain::Coast))
        .push(("bal"@, None, Terrain::Sea))
        .push(("bar"@, None, Terrain::Sea))
        .push(("bel"@, None, Terrain::Coast))
        .push(("ber"@, None, Terrain::Coast))
        .push(("bla"@, None, Terrain::Sea))
        .push(("boh"@, None, Terrain::Land))
        .push(("bot"@, None, Terrain::Sea))
        .push(("bre"@, None, Terrain::Coast))
        .push(("bud"@, None, Terrain::Land))
        .push(("bul"@, None, Terrain::Land))
        .push(("bul"@, Some(Coast::East), Terrain::Sea))
        .push(("bul"@, Some(Coast::South), Terrain::Sea))
        .push(("bur"@, None, Terrain::Land))
        .push(("cly"@, None, Terrain::Coast))
        .push(("con"@, None, Terrain::Coast))
        .push(("den"@, None, Terrain::Coast))
        .push(("eas"@, None, Terrain::Sea))
        .push(("edi"@, None, Terrain::Coast))
        .push(("eng"@, None, Terrain::Sea))
        .push(("fin"@, None, Terrain::Coast))
        .push(("gal"@, None, Terrain::Land))
        .push(("gas"@, None, Terrain::Coast))
        .push(("gre"@, None, Terrain::Coast))
        .push(("hel"@, None, Terrain::Sea))
        .push(("hol"@, None, Terrain::Coast))
        .push(("ion"@, None, Terrain::Sea))
        .push(("iri"@, None, Terrain::Sea))
        .push(("kie"@, None, Terrain::Coast))
        .push(("lon"@, None, Terrain::Coast))
        .push(("lvn"@, None, Terrain::Coast))
        .push(("lvp"@, None, Terrain::Coast))
        .push(("lyo"@, None, Terrain::Sea))
        .push(("mao"@, None, Terrain::Sea))
        .push(("mar"@, None, Terrain::Coast))
        .push(("mos"@, None, Terrain::Land))
        .push(("mun"@, None, Terrain::Land))
        .push(("naf"@, None, Terrain::Coast))
        .push(("nao"@, None, Terrain::Sea))
        .push(("nap"@, None, Terrain::Coast))
        .push(("nth"@, None, Terrain::Sea))
        .push(("nwg"@, None, Terrain::Sea))
        .push(("nwy"@, None, Terrain::Coast))
        .push(("par"@, None, Terrain::Land))
        .push(("pic"@, None, Terrain::Coast))
        .push(("pie"@, None, Terrain::Coast))
        .push(("por"@, None, Terrain::Coast))
        .push(("pru"@, None, Terrain::Coast))
        .push(("rom"@, None, Terrain::Coast))
        .push(("ruh"@, None, Terrain::Land))
        .push(("rum"@, None, Terrain::Coast))
        .push(("ser"@, None, Terrain::Land))
        .push(("sev"@, None, Terrain::Coast))
        .push(("sil"@, None, Terrain::Land))
        .push(("ska"@, None, Terrain::Sea))
        .push(("smy"@, None, Terrain::Coast))
        .push(("spa"@, None, Terrain::Land))
        .push(("spa"@, Some(Coast::North), Terrain::Sea))
        .push(("spa"@, Some(Coast::South), Terrain::Sea))
        .push(("stp"@, None, Terrain::Land))
        .push(("stp"@, Some(Coast::North), Terrain::Sea))
        .push(("stp"@, Some(Coast::South), Terrain::Sea))
        .push(("swe"@, None, Terrain::Coast))
        .push(("syr"@, None, Terrain::Coast))
        .push(("tri"@, None, Terrain::Coast))
        .push(("tun"@, None, Terrain::Coast))
        .push(("tus"@, None, Terrain::Coast))
        .push(("tyr"@, None, Terrain::Land))
        .push(("tys"@, None, Terrain::Sea))
        .push(("ukr"@, None, Terrain::Land))
        .push(("ven"@, None, Terrain::Coast))
        .push(("vie"@, None, Terrain::Land))
        .push(("wal"@, None, Terrain::Coast))
        .push(("war"@, None, Terrain::Land))
        .push(("wes"@, None, Terrain::Sea))
        .push(("yor"@, None, Terrain::Coast))
}

/// The first part of the sea borders of the standard map appended to `s`.
pub open spec fn with_sea_borders_0(
    s: Seq<(RegionName, RegionName, Terrain)>,
) -> Seq<(RegionName, RegionName, Terrain)> {
    s
        .push((("adr"@, None), ("ion"@, None), Terrain::Sea))
        .push((("aeg"@, None), ("eas"@, None), Terrain::Sea))
        .push((("aeg"@, None), ("ion"@, None), Terrain::Sea))
        .push((("bal"@, None), ("bot"@, None), Terrain::Sea))
        .push((("bar"@, None), ("nwg"@, None), Terrain::Sea))
        .push((("eas"@, None), ("ion"@, None), Terrain::Sea))
        .push((("eng"@, None), ("iri"@, None), Terrain::Sea))
        .push((("eng"@, None), ("mao"@, None), Terrain::Sea))
        .push((("eng"@, None), ("nth"@, None), Terrain::Sea))
        .push((("hel"@, None), ("nth"@, None), Terrain::Sea))
        .push((("ion"@, None), ("tys"@, None), Terrain::Sea))
        .push((("iri"@, None), ("mao"@, None), Terrain::Sea))
        .push((("iri"@, None), ("nao"@, None), Terrain::Sea))
        .push((("lyo"@, None), ("tys"@, None), Terrain::Sea))
        .push((("lyo"@, None), ("wes"@, None), Terrain::Sea))
        .push((("mao"@, None), ("nao"@, None), Terrain::Sea))
        .push((("mao"@, None), ("wes"@, None), Terrain::Sea))
        .push((("nao"@, None), ("nwg"@, None), Terrain::Sea))
        .push((("nth"@, None), ("nwg"@, None), Terrain::Sea))
        .push((("nth"@, None), ("ska"@, None), Terrain::Sea))
        .push((("tys"@, None), ("wes"@, None), Terrain::Sea))
        .push((("adr"@, None), ("alb"@, None), Terrain::Sea))
        .push((("adr"@, None), ("apu"@, None), Terrain::Sea))
        .push((("adr"@, None), ("tri"@, None), Terrain::Sea))
        .push((("adr"@, None), ("ven"@, None), Terrain::Sea))
        .push((("aeg"@, None), ("bul"@, Some(Coast::South)), Terrain::Sea))
        .push((("aeg"@, None), ("con"@, None), Terrain::Sea))
        .push((("aeg"@, None), ("gre"@, None), Terrain::Sea))
        .push((("aeg"@, None), ("smy"@, None), Terrain::Sea))
        .push((("bal"@, None), ("ber"@, None), Terrain::Sea))
        .push((("bal"@, None), ("den"@, None), Terrain::Sea))
        .push((("bal"@, None), ("kie"@, None), Terrain::Sea))
        .push((("bal"@, None), ("lvn"@, None), Terrain::Sea))
        .push((("bal"@, None), ("pru"@, None), Terrain::Sea))
        .push((("bal"@, None), ("swe"@, None), Terrain::Sea))
        .push((("bar"@, None), ("nwy"@, None), Terrain::Sea))
        .push((("bar"@, None), ("stp"@, Some(Coast::North)), Terrain::Sea))
        .push((("bla"@, None), ("ank"@, None), Terrain::Sea))
        .push((("bla"@, None), ("arm"@, None), Terrain::Sea))
        .push((("bla"@, None), ("bul"@, Some(Coast::East)), Terrain::Sea))
        .push((("bla"@, None), ("con"@, None), Terrain::Sea))
        .push((("bla"@, None), ("rum"@, None), Terrain::Sea))
        .push((("bla"@, None), ("sev"@, None), Terrain::Sea))
        .push((("bot"@, None), ("fin"@, None), Terrain::Sea))
        .push((("bot"@, None), ("lvn"@, None), Terrain::Sea))
        .push((("bot"@, None), ("stp"@, Some(Coast::South)), Terrain::Sea))
        .push((("bot"@, None), ("swe"@, None), Terrain::Sea))
        .push((("eas"@, None), ("smy"@, None), Terrain::Sea))
        .push((("eas"@, None), ("syr"@, None), Terrain::Sea))
        .push((("eng"@, None), ("bel"@, None), Terrain::Sea))
        .push((("eng"@, None), ("bre"@, None), Terrain::Sea))
        .push((("eng"@, None), ("lon"@, None), Terrain::Sea))
        .push((("eng"@, None), ("pic"@, None), Terrain::Sea))
        .push((("eng"@, None), ("wal"@, None), Terrain::Sea))
        .push((("hel"@, None), ("den"@, None), Terrain::Sea))
        .push((("hel"@, None), ("hol"@, None), Terrain::Sea))
        .push((("hel"@, None), ("kie"@, None), Terrain::Sea))
        .push((("ion"@, None), ("alb"@, None), Terrain::Sea))
        .push((("ion"@, None), ("apu"@, None), Terrain::Sea))
        .push((("ion"@, None), ("gre"@, None), Terrain::Sea))
}

/// The rest of the sea borders of the standard map appended to `s`.
pub open spec fn with_sea_borders_1(
    s: Seq<(RegionName, RegionName, Terrain)>,
) -> Seq<(RegionName, RegionName, Terrain)> {
    s
        .push((("ion"@, None), ("nap"@, None), Terrain::Sea))
        .push((("ion"@, None), ("tun"@, None), Terrain::Sea))
        .push((("iri"@, None), ("lvp"@, None), Terrain::Sea))
        .push((("iri"@, None), ("wal"@, None), Terrain::Sea))
        .push((("lyo"@, None), ("mar"@, None), Terrain::Sea))
        .push((("lyo"@, None), ("pie"@, None), Terrain::Sea))
        .push((("lyo"@, None), ("spa"@, Some(Coast::South)), Terrain::Sea))
        .push((("lyo"@, None), ("tus"@, None), Terrain::Sea))
        .push((("mao"@, None), ("bre"@, None), Terrain::Sea))
        .push((("mao"@, None), ("gas"@, None), Terrain::Sea))
        .push((("mao"@, None), ("naf"@, None), Terrain::Sea))
        .push((("mao"@, None), ("por"@, None), Terrain::Sea))
        .push((("mao"@, None), ("spa"@, Some(Coast::North)), Terrain::Sea))
        .push((("mao"@, None), ("spa"@, Some(Coast::South)), Terrain::Sea))
        .push((("nao"@, None), ("cly"@, None), Terrain::Sea))
        .push((("nao"@, None), ("lvp"@, None), Terrain::Sea))
        .push((("nth"@, None), ("bel"@, None), Terrain::Sea))
        .push((("nth"@, None), ("den"@, None), Terrain::Sea))
        .push((("nth"@, None), ("edi"@, None), Terrain::Sea))
        .push((("nth"@, None), ("hol"@, None), Terrain::Sea))
        .push((("nth"@, None), ("lon"@, None), Terrain::Sea))
        .push((("nth"@, None), ("nwy"@, None), Terrain::Sea))
        .push((("nth"@, None), ("yor"@, None), Terrain::Sea))
        .push((("nwg"@, None), ("cly"@, None), Terrain::Sea))
        .push((("nwg"@, None), ("edi"@, None), Terrain::Sea))
        .push((("nwg"@, None), ("nwy"@, None), Terrain::Sea))
        .push((("ska"@, None), ("den"@, None), Terrain::Sea))
        .push((("ska"@, None), ("nwy"@, None), Terrain::Sea))
        .push((("ska"@, None), ("swe"@, None), Terrain::Sea))
        .push((("tys"@, None), ("nap"@, None), Terrain::Sea))
        .push((("tys"@, None), ("rom"@, None), Terrain::Sea))
        .push((("tys"@, None), ("tun"@, None), Terrain::Sea))
        .push((("tys"@, None), ("tus"@, None), Terrain::Sea))
        .push((("wes"@, None), ("naf"@, None), Terrain::Sea))
        .push((("wes"@, None), ("spa"@, Some(Coast::South)), Terrain::Sea))
        .push((("wes"@, None), ("tun"@, None), Terrain::Sea))
        .push((("bul"@, Some(Coast::East)), ("con"@, None), Terrain::Sea))
        .push((("bul"@, Some(Coast::East)), ("rum"@, None), Terrain::Sea))
        .push((("bul"@, Some(Coast::South)), ("con"@, None), Terrain::Sea))
        .push((("bul"@, Some(Coast::South)), ("gre"@, None), Terrain::Sea))
        .push((("spa"@, Some(Coast::North)), ("gas"@, None), Terrain::Sea))
        .push((("spa"@, Some(Coast::North)), ("por"@, None), Terrain::Sea))
        .push((("spa"@, Some(Coast::South)), ("mar"@, None), Terrain::Sea))
        .push((("spa"@, Some(Coast::South)), ("por"@, None), Terrain::Sea))
        .push((("stp"@, Some(Coast::North)), ("nwy"@, None), Terrain::Sea))
        .push((("stp"@, Some(Coast::South)), ("fin"@, None), Terrain::Sea))
        .push((("stp"@, Some(Coast::South)), ("lvn"@, None), Terrain::Sea))
}

/// The coastal borders of the standard map, which both armies and fleets cross, appended to `s`.
pub open spec fn with_coast_borders(
    s: Seq<(RegionName, RegionName, Terrain)>,
) -> Seq<(RegionName, RegionName, Terrain)> {
    s
        .push((("alb"@, None), ("gre"@, None), Terrain::Coast))
        .push((("alb"@, None), ("tri"@, None), Terrain::Coast))
        .push((("ank"@, None), ("arm"@, None), Terrain::Coast))
        .push((("ank"@, None), ("con"@, None), Terrain::Coast))
        .push((("apu"@, None), ("nap"@, None), Terrain::Coast))
        .push((("apu"@, None), ("ven"@, None), Terrain::Coast))
        .push((("arm"@, None), ("sev"@, None), Terrain::Coast))
        .push((("bel"@, None), ("hol"@, None), Terrain::Coast))
        .push((("bel"@, None), ("pic"@, None), Terrain::Coast))
        .push((("ber"@, None), ("kie"@, None), Terrain::Coast))
        .push((("ber"@, None), ("pru"@, None), Terrain::Coast))
        .push((("bre"@, None), ("gas"@, None), Terrain::Coast))
        .push((("bre"@, None), ("pic"@, None), Terrain::Coast))
        .push((("cly"@, None), ("edi"@, None), Terrain::Coast))
        .push((("cly"@, None), ("lvp"@, None), Terrain::Coast))
        .push((("con"@, None), ("smy"@, None), Terrain::Coast))
        .push((("den"@, None), ("kie"@, None), Terrain::Coast))
        .push((("den"@, None), ("swe"@, None), Terrain::Coast))
        .push((("edi"@, None), ("yor"@, None), Terrain::Coast))
        .push((("fin"@, None), ("swe"@, None), Terrain::Coast))
        .push((("hol"@, None), ("kie"@, None), Terrain::Coast))
        .push((("lon"@, None), ("wal"@, None), Terrain::Coast))
        .push((("lon"@, None), ("yor"@, None), Terrain::Coast))
        .push((("lvn"@, None), ("pru"@, None), Terrain::Coast))
        .push((("lvp"@, None), ("wal"@, None), Terrain::Coast))
        .push((("mar"@, None), ("pie"@, None), Terrain::Coast))
        .push((("naf"@, None), ("tun"@, None), Terrain::Coast))
        .push((("nap"@, None), ("rom"@, None), Terrain::Coast))
        .push((("nwy"@, None), ("swe"@, None), Terrain::Coast))
        .push((("pie"@, None), ("tus"@, None), Terrain::Coast))
        .push((("rom"@, None), ("tus"@, None), Terrain::Coast))
        .push((("rum"@, None), ("sev"@, None), Terrain::Coast))
        .push((("smy"@, None), ("syr"@, None), Terrain::Coast))
        .push((("tri"@, None), ("ven"@, None), Terrain::Coast))
}

/// The first part of the land borders of the standard map appended to `s`.
pub open spec fn with_land_borders_0(
    s: Seq<(RegionName, RegionName, Terrain)>,
) -> Seq<(RegionName, RegionName, Terrain)> {
    s
        .push((("alb"@, None), ("ser"@, None), Terrain::Land))
        .push((("ank"@, None), ("smy"@, None), Terrain::Land))
        .push((("apu"@, None), ("rom"@, None), Terrain::Land))
        .push((("arm"@, None), ("smy"@, None), Terrain::Land))
        .push((("arm"@, None), ("syr"@, None), Terrain::Land))
        .push((("bel"@, None), ("bur"@, None), Terrain::Land))
        .push((("bel"@, None), ("ruh"@, None), Terrain::Land))
        .push((("ber"@, None), ("mun"@, None), Terrain::Land))
        .push((("ber"@, None), ("sil"@, None), Terrain::Land))
        .push((("boh"@, None), ("gal"@, None), Terrain::Land))
        .push((("boh"@, None), ("mun"@, None), Terrain::Land))
        .push((("boh"@, None), ("sil"@, None), Terrain::Land))
        .push((("boh"@, None), ("tyr"@, None), Terrain::Land))
        .push((("boh"@, None), ("vie"@, None), Terrain::Land))
        .push((("bre"@, None), ("par"@, None), Terrain::Land))
        .push((("bud"@, None), ("gal"@, None), Terrain::Land))
        .push((("bud"@, None), ("rum"@, None), Terrain::Land))
        .push((("bud"@, None), ("ser"@, None), Terrain::Land))
        .push((("bud"@, None), ("tri"@, None), Terrain::Land))
        .push((("bud"@, None), ("vie"@, None), Terrain::Land))
        .push((("bul"@, None), ("con"@, None), Terrain::Land))
        .push((("bul"@, None), ("gre"@, None), Terrain::Land))
        .push((("bul"@, None), ("rum"@, None), Terrain::Land))
        .push((("bul"@, None), ("ser"@, None), Terrain::Land))
        .push((("bur"@, None), ("gas"@, None), Terrain::Land))
        .push((("bur"@, None), ("mar"@, None), Terrain::Land))
        .push((("bur"@, None), ("mun"@, None), Terrain::Land))
        .push((("bur"@, None), ("par"@, None), Terrain::Land))
        .push((("bur"@, None), ("pic"@, None), Terrain::Land))
        .push((("bur"@, None), ("ruh"@, None), Terrain::Land))
        .push((("edi"@, None), ("lvp"@, None), Terrain::Land))
        .push((("fin"@, None), ("nwy"@, None), Terrain::Land))
        .push((("fin"@, None), ("stp"@, None), Terrain::Land))
        .push((("gal"@, None), ("rum"@, None), Terrain::Land))
        .push((("gal"@, None), ("sil"@, None), Terrain::Land))
        .push((("gal"@, None), ("ukr"@, None), Terrain::Land))
        .push((("gal"@, None), ("vie"@, None), Terrain::Land))
        .push((("gal"@, None), ("war"@, None), Terrain::Land))
        .push((("gas"@, None), ("mar"@, None), Terrain::Land))
        .push((("gas"@, None), ("par"@, None), Terrain::Land))
        .push((("gas"@, None), ("spa"@, None), Terrain::Land))
        .push((("gre"@, None), ("ser"@, None), Terrain::Land))
        .push((("hol"@, None), ("ruh"@, None), Terrain::Land))
        .push((("kie"@, None), ("mun"@, None), Terrain::Land))
        .push((("kie"@, None), ("ruh"@, None), Terrain::Land))
        .push((("lvn"@, None), ("mos"@, None), Terrain::Land))
        .push((("lvn"@, None), ("stp"@, None), Terrain::Land))
        .push((("lvn"@, None), ("war"@, None), Terrain::Land))
        .push((("lvp"@, None), ("yor"@, None), Terrain::Land))
        .push((("mar"@, None), ("spa"@, None), Terrain::Land))
        .push((("mos"@, None), ("sev"@, None), Terrain::Land))
        .push((("mos"@, None), ("stp"@, None), Terrain::Land))
        .push((("mos"@, None), ("ukr"@, None), Terrain::Land))
        .push((("mos"@, None), ("war"@, None), Terrain::Land))
        .push((("mun"@, None), ("ruh"@, None), Terrain::Land))
        .push((("mun"@, None), ("sil"@, None), Terrain::Land))
        .push((("mun"@, None), ("tyr"@, None), Terrain::Land))
        .push((("nwy"@, None), ("stp"@, None), Terrain::Land))
        .push((("par"@, None), ("pic"@, None), Terrain::Land))
        .push((("pie"@, None), ("tyr"@, None), Terrain::Land))
}

/// The rest of the land borders of the standard map appended to `s`.
pub open spec fn with_land_borders_1(
    s: Seq<(RegionName, RegionName, Terrain)>,
) -> Seq<(RegionName, RegionName, Terrain)> {
    s
        .push((("pie"@, None), ("ven"@, None), Terrain::Land))
        .push((("por"@, None), ("spa"@, None), Terrain::Land))
        .push((("pru"@, None), ("sil"@, None), Terrain::Land))
        .push((("pru"@, None), ("war"@, None), Terrain::Land))
        .push((("rom"@, None), ("ven"@, None), Terrain::Land))
        .push((("rum"@, None), ("ser"@, None), Terrain::Land))
        .push((("rum"@, None), ("ukr"@, None), Terrain::Land))
        .push((("ser"@, None), ("tri"@, None), Terrain::Land))
        .push((("sev"@, None), ("ukr"@, None), Terrain::Land))
        .push((("sil"@, None), ("war"@, None), Terrain::Land))
        .push((("tri"@, None), ("tyr"@, None), Terrain::Land))
        .push((("tri"@, None), ("vie"@, None), Terrain::Land))
        .push((("tus"@, None), ("ven"@, None), Terrain::Land))
        .push((("tyr"@, None), ("ven"@, None), Terrain::Land))
        .push((("tyr"@, None), ("vie"@, None), Terrain::Land))
        .push((("ukr"@, None), ("war"@, None), Terrain::Land))
        .push((("wal"@, None), ("yor"@, None), Terrain::Land))
}

/// The provinces of the standard map, in map order.
pub open spec fn standard_provinces() -> Seq<(Seq<char>, SupplyCenterView)> {
    with_standard_provinces(Seq::empty())
}

/// The regions of the standard map, in map order.
pub open spec fn standard_regions() -> Seq<(Seq<char>, Option<Coast>, Terrain)> {
    with_standard_regions(Seq::empty())
}

/// The borders of the standard map, in map order.
pub open spec fn standard_borders() -> Seq<(RegionName, RegionName, Terrain)> {
    with_land_borders_1(
        with_land_borders_0(with_coast_borders(with_sea_borders_1(with_sea_borders_0(Seq::empty())))),
    )
}

/// The home supply centers of the standard game, by nation.
pub open spec fn standard_home_center(nation: Seq<char>, p: Seq<char>) -> bool {
    ||| nation == "AUS"@ && (p == "bud"@ || p == "tri"@ || p == "vie"@)
    ||| nation == "ENG"@ && (p == "edi"@ || p == "lon"@ || p == "lvp"@)
    ||| nation == "FRA"@ && (p == "bre"@ || p == "mar"@ || p == "par"@)
    ||| nation == "GER"@ && (p == "ber"@ || p == "kie"@ || p == "mun"@)
    ||| nation == "ITA"@ && (p == "nap"@ || p == "rom"@ || p == "ven"@)
    ||| nation == "RUS"@ && (p == "mos"@ || p == "sev"@ || p == "stp"@ || p == "war"@)
    ||| nation == "TUR"@ && (p == "ank"@ || p == "con"@ || p == "smy"@)
}

/// The supply centers of the standard game that belong to no nation at the start.
pub open spec fn standard_neutral_center(p: Seq<char>) -> bool {
    ||| p == "bel"@
    ||| p == "bul"@
    ||| p == "den"@
    ||| p == "gre"@
    ||| p == "hol"@
    ||| p == "nwy"@
    ||| p == "por"@
    ||| p == "rum"@
    ||| p == "ser"@
    ||| p == "spa"@
    ||| p == "swe"@
    ||| p == "tun"@
}

/// Whether province `p` of the map holds a supply center that belongs to no nation at the start.
pub open spec fn is_neutral_sc(m: MapView, p: Seq<char>) -> bool {
    exists|k: int|
        0 <= k < m.provinces.len() && #[trigger] m.provinces[k] == (p, SupplyCenterView::Neutral)
}

/// A province listed with a nation's home supply center is a home supply center of it.
proof fn lemma_home_at(m: MapView, k: int, n: Seq<char>, p: Seq<char>)
    requires
        0 <= k < m.provinces.len(),
        m.provinces[k] == (p, SupplyCenterView::Home(n)),
    ensures
        spec_is_home_sc(m, n, p),
{
    assert(m.provinces[k].0 == p);
}

/// Each home supply center of the standard game is one on the standard map.
#[verifier::rlimit(80)]
proof fn lemma_standard_homes_present(m: MapView)
    requires
        m.provinces == standard_provinces(),
    ensures
        forall|n: Seq<char>, p: Seq<char>| standard_home_center(n, p) ==> spec_is_home_sc(m, n, p),
{
    lemma_home_at(m, 3, "TUR"@, "ank"@);
    lemma_home_at(m, 9, "GER"@, "ber"@);
    lemma_home_at(m, 13, "FRA"@, "bre"@);
    lemma_home_at(m, 14, "AUS"@, "bud"@);
    lemma_home_at(m, 18, "TUR"@, "con"@);
    lemma_home_at(m, 21, "ENG"@, "edi"@);
    lemma_home_at(m, 31, "GER"@, "kie"@);
    lemma_home_at(m, 32, "ENG"@, "lon"@);
    lemma_home_at(m, 34, "ENG"@, "lvp"@);
    lemma_home_at(m, 37, "FRA"@, "mar"@);
    lemma_home_at(m, 38, "RUS"@, "mos"@);
    lemma_home_at(m, 39, "GER"@, "mun"@);
    lemma_home_at(m, 42, "ITA"@, "nap"@);
    lemma_home_at(m, 46, "FRA"@, "par"@);
    lemma_home_at(m, 51, "ITA"@, "rom"@);
    lemma_home_at(m, 55, "RUS"@, "sev"@);
    lemma_home_at(m, 58, "TUR"@, "smy"@);
    lemma_home_at(m, 60, "RUS"@, "stp"@);
    lemma_home_at(m, 63, "AUS"@, "tri"@);
    lemma_home_at(m, 69, "ITA"@, "ven"@);
    lemma_home_at(m, 70, "AUS"@, "vie"@);
    lemma_home_at(m, 72, "RUS"@, "war"@);
}

/// On the standard map each great power has its home supply centers of the standard game and
/// no others: Austria Budapest, Trieste and Vienna; England Edinburgh, London and Liverpool;
/// France Brest, Marseilles and Paris; Germany Berlin, Kiel and Munich; Italy Naples, Rome and
/// Venice; Russia Moscow, Sevastopol, St Petersburg and Warsaw; Turkey Ankara, Constantinople
/// and Smyrna. The twelve other supply centers belong to no nation at the start.
#[verifier::rlimit(60)]
pub proof fn lemma_standard_supply_centers(m: MapView)
    requires
        m.provinces == standard_provinces(),
    ensures
        forall|n: Seq<char>, p: Seq<char>| spec_is_home_sc(m, n, p) <==> standard_home_center(n, p),
        forall|p: Seq<char>| is_neutral_sc(m, p) <==> standard_neutral_center(p),
{
    assert(m.provinces[8] == ("bel"@, SupplyCenterView::Neutral));
    assert(m.provinces[15] == ("bul"@, SupplyCenterView::Neutral));
    assert(m.provinces[19] == ("den"@, SupplyCenterView::Neutral));
    assert(m.provinces[26] == ("gre"@, SupplyCenterView::Neutral));
    assert(m.provinces[28] == ("hol"@, SupplyCenterView::Neutral));
    assert(m.provinces[45] == ("nwy"@, SupplyCenterView::Neutral));
    assert(m.provinces[49] == ("por"@, SupplyCenterView::Neutral));
    assert(m.provinces[53] == ("rum"@, SupplyCenterView::Neutral));
    assert(m.provinces[54] == ("ser"@, SupplyCenterView::Neutral));
    assert(m.provinces[59] == ("spa"@, SupplyCenterView::Neutral));
    assert(m.provinces[61] == ("swe"@, SupplyCenterView::Neutral));
    assert(m.provinces[64] == ("tun"@, SupplyCenterView::Neutral));
    lemma_standard_homes_present(m);
    assert forall|n: Seq<char>, p: Seq<char>|
        spec_is_home_sc(m, n, p) implies standard_home_center(n, p) by {
        let k = choose|k: int| 0 <= k < m.provinces.len() && #[trigger] m.provinces[k].0 == p
            && m.provinces[k].1 == SupplyCenterView::Home(n);
        assert(0 <= k < 75);
    }
    assert forall|p: Seq<char>| is_neutral_sc(m, p) implies standard_neutral_center(p) by {
        let k = choose|k: int|
            0 <= k < m.provinces.len() && #[trigger] m.provinces[k] == (p, SupplyCenterView::Neutral);
        assert(0 <= k < 75);
    }
}

/// `with_sea_borders_0` appends 60 borders and keeps those of `s`.
proof fn lemma_with_sea_borders_0_prefix(s: Seq<(RegionName, RegionName, Terrain)>)
    ensures
        with_sea_borders_0(s).len() == s.len() + 60,
        forall|i: int| 0 <= i < s.len() ==> #[trigger] with_sea_borders_0(s)[i] == s[i],
{
}

/// `with_sea_borders_1` appends 47 borders and keeps those of `s`.
proof fn lemma_with_sea_borders_1_prefix(s: Seq<(RegionName, RegionName, Terrain)>)
    ensures
        with_sea_borders_1(s).len() == s.len() + 47,
        forall|i: int| 0 <= i < s.len() ==> #[trigger] with_sea_borders_1(s)[i] == s[i],
{
}

/// `with_coast_borders` appends 34 borders and keeps those of `s`.
proof fn lemma_with_coast_borders_prefix(s: Seq<(RegionName, RegionName, Terrain)>)
    ensures
        with_coast_borders(s).len() == s.len() + 34,
        forall|i: int| 0 <= i < s.len() ==> #[trigger] with_coast_borders(s)[i] == s[i],
{
}

/// `with_land_borders_0` appends 60 borders and keeps those of `s`.
proof fn lemma_with_land_borders_0_prefix(s: Seq<(RegionName, RegionName, Terrain)>)
    ensures
        with_land_borders_0(s).len() == s.len() + 60,
        forall|i: int| 0 <= i < s.len() ==> #[trigger] with_land_borders_0(s)[i] == s[i],
{
}

/// `with_land_borders_1` appends 17 borders and keeps those of `s`.
proof fn lemma_with_land_borders_1_prefix(s: Seq<(RegionName, RegionName, Terrain)>)
    ensures
        with_land_borders_1(s).len() == s.len() + 17,
        forall|i: int| 0 <= i < s.len() ==> #[trigger] with_land_borders_1(s)[i] == s[i],
{
}

/// A province appended to the list decides who owns its name at the start when it is a home
/// supply center, and leaves the owners of the other names as they were.
proof fn lemma_home_owner_push(
    s: Seq<(Seq<char>, SupplyCenterView)>,
    x: (Seq<char>, SupplyCenterView),
    p: Seq<char>,
)
    ensures
        home_owner(s.push(x), p) == (if x.0 == p && x.1 is Home {
            Some(x.1->Home_0)
        } else {
            home_owner(s, p)
        }),
{
    assert(s.push(x).drop_last() =~= s);
}

/// On the standard map the initial ownership of supply centers gives each great power its home
/// supply centers and leaves every other province without an owner.
#[verifier::rlimit(100)]
pub proof fn lemma_standard_initial_owners(m: MapView)
    requires
        m.provinces == standard_provinces(),
    ensures
        forall|n: Seq<char>, p: Seq<char>|
            home_owner(m.provinces, p) == Some(n) <==> standard_home_center(n, p),
{
    assert forall|s: Seq<(Seq<char>, SupplyCenterView)>, x: (Seq<char>, SupplyCenterView), p: Seq<char>|
        #[trigger] home_owner(s.push(x), p) == (if x.0 == p && x.1 is Home {
            Some(x.1->Home_0)
        } else {
            home_owner(s, p)
        }) by {
        lemma_home_owner_push(s, x, p);
    }
    reveal_strlit("ank");
    reveal_strlit("ber");
    reveal_strlit("bre");
    reveal_strlit("bud");
    reveal_strlit("con");
    reveal_strlit("edi");
    reveal_strlit("kie");
    reveal_strlit("lon");
    reveal_strlit("lvp");
    reveal_strlit("mar");
    reveal_strlit("mos");
    reveal_strlit("mun");
    reveal_strlit("nap");
    reveal_strlit("par");
    reveal_strlit("rom");
    reveal_strlit("sev");
    reveal_strlit("smy");
    reveal_strlit("stp");
    reveal_strlit("tri");
    reveal_strlit("ven");
    reveal_strlit("vie");
    reveal_strlit("war");
    assert("ank"@[0] != "ber"@[0]);
    assert("ank"@[0] != "bre"@[0]);
    assert("ank"@[0] != "bud"@[0]);
    assert("ank"@[0] != "con"@[0]);
    assert("ank"@[0] != "edi"@[0]);
    assert("ank"@[0] != "kie"@[0]);
    assert("ank"@[0] != "lon"@[0]);
    assert("ank"@[0] != "lvp"@[0]);
    assert("ank"@[0] != "mar"@[0]);
    assert("ank"@[0] != "mos"@[0]);
    assert("ank"@[0] != "mun"@[0]);
    assert("ank"@[0] != "nap"@[0]);
    assert("ank"@[0] != "par"@[0]);
    assert("ank"@[0] != "rom"@[0]);
    assert("ank"@[0] != "sev"@[0]);
    assert("ank"@[0] != "smy"@[0]);
    assert("ank"@[0] != "stp"@[0]);
    assert("ank"@[0] != "tri"@[0]);
    assert("ank"@[0] != "ven"@[0]);
    assert("ank"@[0] != "vie"@[0]);
    assert("ank"@[0] != "war"@[0]);
    assert("ber"@[1] != "bre"@[1]);
    assert("ber"@[1] != "bud"@[1]);
    assert("ber"@[0] != "con"@[0]);
    assert("ber"@[0] != "edi"@[0]);
    assert("ber"@[0] != "kie"@[0]);
    assert("ber"@[0] != "lon"@[0]);
    assert("ber"@[0] != "lvp"@[0]);
    assert("ber"@[0] != "mar"@[0]);
    assert("ber"@[0] != "mos"@[0]);
    assert("ber"@[0] != "mun"@[0]);
    assert("ber"@[0] != "nap"@[0]);
    assert("ber"@[0] != "par"@[0]);
    assert("ber"@[0] != "rom"@[0]);
    assert("ber"@[0] != "sev"@[0]);
    assert("ber"@[0] != "smy"@[0]);
    assert("ber"@[0] != "stp"@[0]);
    assert("ber"@[0] != "tri"@[0]);
    assert("ber"@[0] != "ven"@[0]);
    assert("ber"@[0] != "vie"@[0]);
    assert("ber"@[0] != "war"@[0]);
    assert("bre"@[1] != "bud"@[1]);
    assert("bre"@[0] != "con"@[0]);
    assert("bre"@[0] != "edi"@[0]);
    assert("bre"@[0] != "kie"@[0]);
    assert("bre"@[0] != "lon"@[0]);
    assert("bre"@[0] != "lvp"@[0]);
    assert("bre"@[0] != "mar"@[0]);
    assert("bre"@[0] != "mos"@[0]);
    assert("bre"@[0] != "mun"@[0]);
    assert("bre"@[0] != "nap"@[0]);
    assert("bre"@[0] != "par"@[0]);
    assert("bre"@[0] != "rom"@[0]);
    assert("bre"@[0] != "sev"@[0]);
    assert("bre"@[0] != "smy"@[0]);
    assert("bre"@[0] != "stp"@[0]);
    assert("bre"@[0] != "tri"@[0]);
    assert("bre"@[0] != "ven"@[0]);
    assert("bre"@[0] != "vie"@[0]);
    assert("bre"@[0] != "war"@[0]);
    assert("bud"@[0] != "con"@[0]);
    assert("bud"@[0] != "edi"@[0]);
    assert("bud"@[0] != "kie"@[0]);
    assert("bud"@[0] != "lon"@[0]);
    assert("bud"@[0] != "lvp"@[0]);
    assert("bud"@[0] != "mar"@[0]);
    assert("bud"@[0] != "mos"@[0]);
    assert("bud"@[0] != "mun"@[0]);
    assert("bud"@[0] != "nap"@[0]);
    assert("bud"@[0] != "par"@[0]);
    assert("bud"@[0] != "rom"@[0]);
    assert("bud"@[0] != "sev"@[0]);
    assert("bud"@[0] != "smy"@[0]);
    assert("bud"@[0] != "stp"@[0]);
    assert("bud"@[0] != "tri"@[0]);
    assert("bud"@[0] != "ven"@[0]);
    assert("bud"@[0] != "vie"@[0]);
    assert("bud"@[0] != "war"@[0]);
    assert("con"@[0] != "edi"@[0]);
    assert("con"@[0] != "kie"@[0]);
    assert("con"@[0] != "lon"@[0]);
    assert("con"@[0] != "lvp"@[0]);
    assert("con"@[0] != "mar"@[0]);
    assert("con"@[0] != "mos"@[0]);
    assert("con"@[0] != "mun"@[0]);
    assert("con"@[0] != "nap"@[0]);
    assert("con"@[0] != "par"@[0]);
    assert("con"@[0] != "rom"@[0]);
    assert("con"@[0] != "sev"@[0]);
    assert("con"@[0] != "smy"@[0]);
    assert("con"@[0] != "stp"@[0]);
    assert("con"@[0] != "tri"@[0]);
    assert("con"@[0] != "ven"@[0]);
    assert("con"@[0] != "vie"@[0]);
    assert("con"@[0] != "war"@[0]);
    assert("edi"@[0] != "kie"@[0]);
    assert("edi"@[0] != "lon"@[0]);
    assert("edi"@[0] != "lvp"@[0]);
    assert("edi"@[0] != "mar"@[0]);
    assert("edi"@[0] != "mos"@[0]);
    assert("edi"@[0] != "mun"@[0]);
    assert("edi"@[0] != "nap"@[0]);
    assert("edi"@[0] != "par"@[0]);
    assert("edi"@[0] != "rom"@[0]);
    assert("edi"@[0] != "sev"@[0]);
    assert("edi"@[0] != "smy"@[0]);
    assert("edi"@[0] != "stp"@[0]);
    assert("edi"@[0] != "tri"@[0]);
    assert("edi"@[0] != "ven"@[0]);
    assert("edi"@[0] != "vie"@[0]);
    assert("edi"@[0] != "war"@[0]);
    assert("kie"@[0] != "lon"@[0]);
    assert("kie"@[0] != "lvp"@[0]);
    assert("kie"@[0] != "mar"@[0]);
    assert("kie"@[0] != "mos"@[0]);
    assert("kie"@[0] != "mun"@[0]);
    assert("kie"@[0] != "nap"@[0]);
    assert("kie"@[0] != "par"@[0]);
    assert("kie"@[0] != "rom"@[0]);
    assert("kie"@[0] != "sev"@[0]);
    assert("kie"@[0] != "smy"@[0]);
    assert("kie"@[0] != "stp"@[0]);
    assert("kie"@[0] != "tri"@[0]);
    assert("kie"@[0] != "ven"@[0]);
    assert("kie"@[0] != "vie"@[0]);
    assert("kie"@[0] != "war"@[0]);
    assert("lon"@[1] != "lvp"@[1]);
    assert("lon"@[0] != "mar"@[0]);
    assert("lon"@[0] != "mos"@[0]);
    assert("lon"@[0] != "mun"@[0]);
    assert("lon"@[0] != "nap"@[0]);
    assert("lon"@[0] != "par"@[0]);
    assert("lon"@[0] != "rom"@[0]);
    assert("lon"@[0] != "sev"@[0]);
    assert("lon"@[0] != "smy"@[0]);
    assert("lon"@[0] != "stp"@[0]);
    assert("lon"@[0] != "tri"@[0]);
    assert("lon"@[0] != "ven"@[0]);
    assert("lon"@[0] != "vie"@[0]);
    assert("lon"@[0] != "war"@[0]);
    assert("lvp"@[0] != "mar"@[0]);
    assert("lvp"@[0] != "mos"@[0]);
    assert("lvp"@[0] != "mun"@[0]);
    assert("lvp"@[0] != "nap"@[0]);
    assert("lvp"@[0] != "par"@[0]);
    assert("lvp"@[0] != "rom"@[0]);
    assert("lvp"@[0] != "sev"@[0]);
    assert("lvp"@[0] != "smy"@[0]);
    assert("lvp"@[0] != "stp"@[0]);
    assert("lvp"@[0] != "tri"@[0]);
    assert("lvp"@[0] != "ven"@[0]);
    assert("lvp"@[0] != "vie"@[0]);
    assert("lvp"@[0] != "war"@[0]);
    assert("mar"@[1] != "mos"@[1]);
    assert("mar"@[1] != "mun"@[1]);
    assert("mar"@[0] != "nap"@[0]);
    assert("mar"@[0] != "par"@[0]);
    assert("mar"@[0] != "rom"@[0]);
    assert("mar"@[0] != "sev"@[0]);
    assert("mar"@[0] != "smy"@[0]);
    assert("mar"@[0] != "stp"@[0]);
    assert("mar"@[0] != "tri"@[0]);
    assert("mar"@[0] != "ven"@[0]);
    assert("mar"@[0] != "vie"@[0]);
    assert("mar"@[0] != "war"@[0]);
    assert("mos"@[1] != "mun"@[1]);
    assert("mos"@[0] != "nap"@[0]);
    assert("mos"@[0] != "par"@[0]);
    assert("mos"@[0] != "rom"@[0]);
    assert("mos"@[0] != "sev"@[0]);
    assert("mos"@[0] != "smy"@[0]);
    assert("mos"@[0] != "stp"@[0]);
    assert("mos"@[0] != "tri"@[0]);
    assert("mos"@[0] != "ven"@[0]);
    assert("mos"@[0] != "vie"@[0]);
    assert("mos"@[0] != "war"@[0]);
    assert("mun"@[0] != "nap"@[0]);
    assert("mun"@[0] != "par"@[0]);
    assert("mun"@[0] != "rom"@[0]);
    assert("mun"@[0] != "sev"@[0]);
    assert("mun"@[0] != "smy"@[0]);
    assert("mun"@[0] != "stp"@[0]);
    assert("mun"@[0] != "tri"@[0]);
    assert("mun"@[0] != "ven"@[0]);
    assert("mun"@[0] != "vie"@[0]);
    assert("mun"@[0] != "war"@[0]);
    assert("nap"@[0] != "par"@[0]);
    assert("nap"@[0] != "rom"@[0]);
    assert("nap"@[0] != "sev"@[0]);
    assert("nap"@[0] != "smy"@[0]);
    assert("nap"@[0] != "stp"@[0]);
    assert("nap"@[0] != "tri"@[0]);
    assert("nap"@[0] != "ven"@[0]);
    assert("nap"@[0] != "vie"@[0]);
    assert("nap"@[0] != "war"@[0]);
    assert("par"@[0] != "rom"@[0]);
    assert("par"@[0] != "sev"@[0]);
    assert("par"@[0] != "smy"@[0]);
    assert("par"@[0] != "stp"@[0]);
    assert("par"@[0] != "tri"@[0]);
    assert("par"@[0] != "ven"@[0]);
    assert("par"@[0] != "vie"@[0]);
    assert("par"@[0] != "war"@[0]);
    assert("rom"@[0] != "sev"@[0]);
    assert("rom"@[0] != "smy"@[0]);
    assert("rom"@[0] != "stp"@[0]);
    assert("rom"@[0] != "tri"@[0]);
    assert("rom"@[0] != "ven"@[0]);
    assert("rom"@[0] != "vie"@[0]);
    assert("rom"@[0] != "war"@[0]);
    assert("sev"@[1] != "smy"@[1]);
    assert("sev"@[1] != "stp"@[1]);
    assert("sev"@[0] != "tri"@[0]);
    assert("sev"@[0] != "ven"@[0]);
    assert("sev"@[0] != "vie"@[0]);
    assert("sev"@[0] != "war"@[0]);
    assert("smy"@[1] != "stp"@[1]);
    assert("smy"@[0] != "tri"@[0]);
    assert("smy"@[0] != "ven"@[0]);
    assert("smy"@[0] != "vie"@[0]);
    assert("smy"@[0] != "war"@[0]);
    assert("stp"@[0] != "tri"@[0]);
    assert("stp"@[0] != "ven"@[0]);
    assert("stp"@[0] != "vie"@[0]);
    assert("stp"@[0] != "war"@[0]);
    assert("tri"@[0] != "ven"@[0]);
    assert("tri"@[0] != "vie"@[0]);
    assert("tri"@[0] != "war"@[0]);
    assert("ven"@[1] != "vie"@[1]);
    assert("ven"@[0] != "war"@[0]);
    assert("vie"@[0] != "war"@[0]);
}

/// Whether some region of `regs` has the key `key`.
pub open spec fn region_listed(
    regs: Seq<(Seq<char>, Option<Coast>, Terrain)>,
    key: RegionName,
) -> bool {
    exists|j: int| 0 <= j < regs.len() && #[trigger] region_key_of(regs[j]) == key
}

/// Each border that `with_sea_borders_0` appends joins two regions of the standard map.
#[verifier::rlimit(100)]
proof fn lemma_with_sea_borders_0_ends_listed(
    s: Seq<(RegionName, RegionName, Terrain)>,
    i: int,
)
    requires
        s.len() <= i < s.len() + 60,
    ensures
        region_listed(standard_regions(), with_sea_borders_0(s)[i].0),
        region_listed(standard_regions(), with_sea_borders_0(s)[i].1),
{
    let regs = standard_regions();
    let r: Seq<(RegionName, RegionName, Terrain)> = with_sea_borders_0(s);
    let k: int = i - s.len();
    assert(
        k == 0 || k == 1 || k == 2 || k == 3 || k == 4 || k == 5 || k == 6 || k == 7 || k == 8 || k == 9
            || k == 10 || k == 11 || k == 12 || k == 13 || k == 14 || k == 15 || k == 16 || k == 17 || k == 18 || k == 19
            || k == 20 || k == 21 || k == 22 || k == 23 || k == 24 || k == 25 || k == 26 || k == 27 || k == 28 || k == 29
            || k == 30 || k == 31 || k == 32 || k == 33 || k == 34 || k == 35 || k == 36 || k == 37 || k == 38 || k == 39
            || k == 40 || k == 41 || k == 42 || k == 43 || k == 44 || k == 45 || k == 46 || k == 47 || k == 48 || k == 49
            || k == 50 || k == 51 || k == 52 || k == 53 || k == 54 || k == 55 || k == 56 || k == 57 || k == 58 || k == 59
    );
    if k == 0 {
        assert(r[i] == (("adr"@, None::<Coast>), ("ion"@, None::<Coast>), Terrain::Sea));
        assert(region_key_of(regs[0]) == r[i].0);
        assert(region_key_of(regs[31]) == r[i].1);
    }
    if k == 1 {
        assert(r[i] == (("aeg"@, None::<Coast>), ("eas"@, None::<Coast>), Terrain::Sea));
        assert(region_key_of(regs[1]) == r[i].0);
        assert(region_key_of(regs[22]) == r[i].1);
    }
    if k == 2 {
        assert(r[i] == (("aeg"@, None::<Coast>), ("ion"@, None::<Coast>), Terrain::Sea));
        assert(region_key_of(regs[1]) == r[i].0);
        assert(region_key_of(regs[31]) == r[i].1);
    }
    if k == 3 {
        assert(r[i] == (("bal"@, None::<Coast>), ("bot"@, None::<Coast>), Terrain::Sea));
        assert(region_key_of(regs[6]) == r[i].0);
        assert(region_key_of(regs[12]) == r[i].1);
    }
    if k == 4 {
        assert(r[i] == (("bar"@, None::<Coast>), ("nwg"@, None::<Coast>), Terrain::Sea));
        assert(region_key_of(regs[7]) == r[i].0);
        assert(region_key_of(regs[46]) == r[i].1);
    }
    if k == 5 {
        assert(r[i] == (("eas"@, None::<Coast>), ("ion"@, None::<Coast>), Terrain::Sea));
        assert(region_key_of(regs[22]) == r[i].0);
        assert(region_key_of(regs[31]) == r[i].1);
    }
    if k == 6 {
        assert(r[i] == (("eng"@, None::<Coast>), ("iri"@, None::<Coast>), Terrain::Sea));
        assert(region_key_of(regs[24]) == r[i].0);
        assert(region_key_of(regs[32]) == r[i].1);
    }
    if k == 7 {
        assert(r[i] == (("eng"@, None::<Coast>), ("mao"@, None::<Coast>), Terrain::Sea));
        assert(region_key_of(regs[24]) == r[i].0);
        assert(region_key_of(regs[38]) == r[i].1);
    }
    if k == 8 {
        assert(r[i] == (("eng"@, None::<Coast>), ("nth"@, None::<Coast>), Terrain::Sea));
        assert(region_key_of(regs[24]) == r[i].0);
        assert(region_key_of(regs[45]) == r[i].1);
    }
    if k == 9 {
        assert(r[i] == (("hel"@, None::<Coast>), ("nth"@, None::<Coast>), Terrain::Sea));
        assert(region_key_of(regs[29]) == r[i].0);
        assert(region_key_of(regs[45]) == r[i].1);
    }
    if k == 10 {
        assert(r[i] == (("ion"@, None::<Coast>), ("tys"@, None::<Coast>), Terrain::Sea));
        assert(region_key_of(regs[31]) == r[i].0);
        assert(region_key_of(regs[73]) == r[i].1);
    }
    if k == 11 {
        assert(r[i] == (("iri"@, None::<Coast>), ("mao"@, None::<Coast>), Terrain::Sea));
        assert(region_key_of(regs[32]) == r[i].0);
        assert(region_key_of(regs[38]) == r[i].1);
    }
    if k == 12 {
        assert(r[i] == (("iri"@, None::<Coast>), ("nao"@, None::<Coast>), Terrain::Sea));
        assert(region_key_of(regs[32]) == r[i].0);
        assert(region_key_of(regs[43]) == r[i].1);
    }
    if k == 13 {
        assert(r[i] == (("lyo"@, None::<Coast>), ("tys"@, None::<Coast>), Terrain::Sea));
        assert(region_key_of(regs[37]) == r[i].0);
        assert(region_key_of(regs[73]) == r[i].1);
    }
    if k == 14 {
        assert(r[i] == (("lyo"@, None::<Coast>), ("wes"@, None::<Coast>), Terrain::Sea));
        assert(region_key_of(regs[37]) == r[i].0);
        assert(region_key_of(regs[79]) == r[i].1);
    }
    if k == 15 {
        assert(r[i] == (("mao"@, None::<Coast>), ("nao"@, None::<Coast>), Terrain::Sea));
        assert(region_key_of(regs[38]) == r[i].0);
        assert(region_key_of(regs[43]) == r[i].1);
    }
    if k == 16 {
        assert(r[i] == (("mao"@, None::<Coast>), ("wes"@, None::<Coast>), Terrain::Sea));
        assert(region_key_of(regs[38]) == r[i].0);
        assert(region_key_of(regs[79]) == r[i].1);
    }
    if k == 17 {
        assert(r[i] == (("nao"@, None::<Coast>), ("nwg"@, None::<Coast>), Terrain::Sea));
        assert(region_key_of(regs[43]) == r[i].0);
        assert(region_key_of(regs[46]) == r[i].1);
    }
    if k == 18 {
        assert(r[i] == (("nth"@, None::<Coast>), ("nwg"@, None::<Coast>), Terrain::Sea));
        assert(region_key_of(regs[45]) == r[i].0);
        assert(region_key_of(regs[46]) == r[i].1);
    }
    if k == 19 {
        assert(r[i] == (("nth"@, None::<Coast>), ("ska"@, None::<Coast>), Terrain::Sea));
        assert(region_key_of(regs[45]) == r[i].0);
        assert(region_key_of(regs[59]) == r[i].1);
    }
    if k == 20 {
        assert(r[i] == (("tys"@, None::<Coast>), ("wes"@, None::<Coast>), Terrain::Sea));
        assert(region_key_of(regs[73]) == r[i].0);
        assert(region_key_of(regs[79]) == r[i].1);
    }
    if k == 21 {
        assert(r[i] == (("adr"@, None::<Coast>), ("alb"@, None::<Coast>), Terrain::Sea));
        assert(region_key_of(regs[0]) == r[i].0);
        assert(region_key_of(regs[2]) == r[i].1);
    }
    if k == 22 {
        assert(r[i] == (("adr"@, None::<Coast>), ("apu"@, None::<Coast>), Terrain::Sea));
        assert(region_key_of(regs[0]) == r[i].0);
        assert(region_key_of(regs[4]) == r[i].1);
    }
    if k == 23 {
        assert(r[i] == (("adr"@, None::<Coast>), ("tri"@, None::<Coast>), Terrain::Sea));
        assert(region_key_of(regs[0]) == r[i].0);
        assert(region_key_of(regs[69]) == r[i].1);
    }
    if k == 24 {
        assert(r[i] == (("adr"@, None::<Coast>), ("ven"@, None::<Coast>), Terrain::Sea));
        assert(region_key_of(regs[0]) == r[i].0);
        assert(region_key_of(regs[75]) == r[i].1);
    }
    if k == 25 {
        assert(r[i] == (("aeg"@, None::<Coast>), ("bul"@, Some(Coast::South)), Terrain::Sea));
        assert(region_key_of(regs[1]) == r[i].0);
        assert(region_key_of(regs[17]) == r[i].1);
    }
    if k == 26 {
        assert(r[i] == (("aeg"@, None::<Coast>), ("con"@, None::<Coast>), Terrain::Sea));
        assert(region_key_of(regs[1]) == r[i].0);
        assert(region_key_of(regs[20]) == r[i].1);
    }
    if k == 27 {
        assert(r[i] == (("aeg"@, None::<Coast>), ("gre"@, None::<Coast>), Terrain::Sea));
        assert(region_key_of(regs[1]) == r[i].0);
        assert(region_key_of(regs[28]) == r[i].1);
    }
    if k == 28 {
        assert(r[i] == (("aeg"@, None::<Coast>), ("smy"@, None::<Coast>), Terrain::Sea));
        assert(region_key_of(regs[1]) == r[i].0);
        assert(region_key_of(regs[60]) == r[i].1);
    }
    if k == 29 {
        assert(r[i] == (("bal"@, None::<Coast>), ("ber"@, None::<Coast>), Terrain::Sea));
        assert(region_key_of(regs[6]) == r[i].0);
        assert(region_key_of(regs[9]) == r[i].1);
    }
    if k == 30 {
        assert(r[i] == (("bal"@, None::<Coast>), ("den"@, None::<Coast>), Terrain::Sea));
        assert(region_key_of(regs[6]) == r[i].0);
        assert(region_key_of(regs[21]) == r[i].1);
    }
    if k == 31 {
        assert(r[i] == (("bal"@, None::<Coast>), ("kie"@, None::<Coast>), Terrain::Sea));
        assert(region_key_of(regs[6]) == r[i].0);
        assert(region_key_of(regs[33]) == r[i].1);
    }
    if k == 32 {
        assert(r[i] == (("bal"@, None::<Coast>), ("lvn"@, None::<Coast>), Terrain::Sea));
        assert(region_key_of(regs[6]) == r[i].0);
        assert(region_key_of(regs[35]) == r[i].1);
    }
    if k == 33 {
        assert(r[i] == (("bal"@, None::<Coast>), ("pru"@, None::<Coast>), Terrain::Sea));
        assert(region_key_of(regs[6]) == r[i].0);
        assert(region_key_of(regs[52]) == r[i].1);
    }
    if k == 34 {
        assert(r[i] == (("bal"@, None::<Coast>), ("swe"@, None::<Coast>), Terrain::Sea));
        assert(region_key_of(regs[6]) == r[i].0);
        assert(region_key_of(regs[67]) == r[i].1);
    }
    if k == 35 {
        assert(r[i] == (("bar"@, None::<Coast>), ("nwy"@, None::<Coast>), Terrain::Sea));
        assert(region_key_of(regs[7]) == r[i].0);
        assert(region_key_of(regs[47]) == r[i].1);
    }
    if k == 36 {
        assert(r[i] == (("bar"@, None::<Coast>), ("stp"@, Some(Coast::North)), Terrain::Sea));
        assert(region_key_of(regs[7]) == r[i].0);
        assert(region_key_of(regs[65]) == r[i].1);
    }
    if k == 37 {
        assert(r[i] == (("bla"@, None::<Coast>), ("ank"@, None::<Coast>), Terrain::Sea));
        assert(region_key_of(regs[10]) == r[i].0);
        assert(region_key_of(regs[3]) == r[i].1);
    }
    if k == 38 {
        assert(r[i] == (("bla"@, None::<Coast>), ("arm"@, None::<Coast>), Terrain::Sea));
        assert(region_key_of(regs[10]) == r[i].0);
        assert(region_key_of(regs[5]) == r[i].1);
    }
    if k == 39 {
        assert(r[i] == (("bla"@, None::<Coast>), ("bul"@, Some(Coast::East)), Terrain::Sea));
        assert(region_key_of(regs[10]) == r[i].0);
        assert(region_key_of(regs[16]) == r[i].1);
    }
    if k == 40 {
        assert(r[i] == (("bla"@, None::<Coast>), ("con"@, None::<Coast>), Terrain::Sea));
        assert(region_key_of(regs[10]) == r[i].0);
        assert(region_key_of(regs[20]) == r[i].1);
    }
    if k == 41 {
        assert(r[i] == (("bla"@, None::<Coast>), ("rum"@, None::<Coast>), Terrain::Sea));
        assert(region_key_of(regs[10]) == r[i].0);
        assert(region_key_of(regs[55]) == r[i].1);
    }
    if k == 42 {
        assert(r[i] == (("bla"@, None::<Coast>), ("sev"@, None::<Coast>), Terrain::Sea));
        assert(region_key_of(regs[10]) == r[i].0);
        assert(region_key_of(regs[57]) == r[i].1);
    }
    if k == 43 {
        assert(r[i] == (("bot"@, None::<Coast>), ("fin"@, None::<Coast>), Terrain::Sea));
        assert(region_key_of(regs[12]) == r[i].0);
        assert(region_key_of(regs[25]) == r[i].1);
    }
    if k == 44 {
        assert(r[i] == (("bot"@, None::<Coast>), ("lvn"@, None::<Coast>), Terrain::Sea));
        assert(region_key_of(regs[12]) == r[i].0);
        assert(region_key_of(regs[35]) == r[i].1);
    }
    if k == 45 {
        assert(r[i] == (("bot"@, None::<Coast>), ("stp"@, Some(Coast::South)), Terrain::Sea));
        assert(region_key_of(regs[12]) == r[i].0);
        assert(region_key_of(regs[66]) == r[i].1);
    }
    if k == 46 {
        assert(r[i] == (("bot"@, None::<Coast>), ("swe"@, None::<Coast>), Terrain::Sea));
        assert(region_key_of(regs[12]) == r[i].0);
        assert(region_key_of(regs[67]) == r[i].1);
    }
    if k == 47 {
        assert(r[i] == (("eas"@, None::<Coast>), ("smy"@, None::<Coast>), Terrain::Sea));
        assert(region_key_of(regs[22]) == r[i].0);
        assert(region_key_of(regs[60]) == r[i].1);
    }
    if k == 48 {
        assert(r[i] == (("eas"@, None::<Coast>), ("syr"@, None::<Coast>), Terrain::Sea));
        assert(region_key_of(regs[22]) == r[i].0);
        assert(region_key_of(regs[68]) == r[i].1);
    }
    if k == 49 {
        assert(r[i] == (("eng"@, None::<Coast>), ("bel"@, None::<Coast>), Terrain::Sea));
        assert(region_key_of(regs[24]) == r[i].0);
        assert(region_key_of(regs[8]) == r[i].1);
    }
    if k == 50 {
        assert(r[i] == (("eng"@, None::<Coast>), ("bre"@, None::<Coast>), Terrain::Sea));
        assert(region_key_of(regs[24]) == r[i].0);
        assert(region_key_of(regs[13]) == r[i].1);
    }
    if k == 51 {
        assert(r[i] == (("eng"@, None::<Coast>), ("lon"@, None::<Coast>), Terrain::Sea));
        assert(region_key_of(regs[24]) == r[i].0);
        assert(region_key_of(regs[34]) == r[i].1);
    }
    if k == 52 {
        assert(r[i] == (("eng"@, None::<Coast>), ("pic"@, None::<Coast>), Terrain::Sea));
        assert(region_key_of(regs[24]) == r[i].0);
        assert(region_key_of(regs[49]) == r[i].1);
    }
    if k == 53 {
        assert(r[i] == (("eng"@, None::<Coast>), ("wal"@, None::<Coast>), Terrain::Sea));
        assert(region_key_of(regs[24]) == r[i].0);
        assert(region_key_of(regs[77]) == r[i].1);
    }
    if k == 54 {
        assert(r[i] == (("hel"@, None::<Coast>), ("den"@, None::<Coast>), Terrain::Sea));
        assert(region_key_of(regs[29]) == r[i].0);
        assert(region_key_of(regs[21]) == r[i].1);
    }
    if k == 55 {
        assert(r[i] == (("hel"@, None::<Coast>), ("hol"@, None::<Coast>), Terrain::Sea));
        assert(region_key_of(regs[29]) == r[i].0);
        assert(region_key_of(regs[30]) == r[i].1);
    }
    if k == 56 {
        assert(r[i] == (("hel"@, None::<Coast>), ("kie"@, None::<Coast>), Terrain::Sea));
        assert(region_key_of(regs[29]) == r[i].0);
        assert(region_key_of(regs[33]) == r[i].1);
    }
    if k == 57 {
        assert(r[i] == (("ion"@, None::<Coast>), ("alb"@, None::<Coast>), Terrain::Sea));
        assert(region_key_of(regs[31]) == r[i].0);
        assert(region_key_of(regs[2]) == r[i].1);
    }
    if k == 58 {
        assert(r[i] == (("ion"@, None::<Coast>), ("apu"@, None::<Coast>), Terrain::Sea));
        assert(region_key_of(regs[31]) == r[i].0);
        assert(region_key_of(regs[4]) == r[i].1);
    }
    if k == 59 {
        assert(r[i] == (("ion"@, None::<Coast>), ("gre"@, None::<Coast>), Terrain::Sea));
        assert(region_key_of(regs[31]) == r[i].0);
        assert(region_key_of(regs[28]) == r[i].1);
    }
}

/// Each border that `with_sea_borders_1` appends joins two regions of the standard map.
#[verifier::rlimit(100)]
proof fn lemma_with_sea_borders_1_ends_listed(
    s: Seq<(RegionName, RegionName, Terrain)>,
    i: int,
)
    requires
        s.len() <= i < s.len() + 47,
    ensures
        region_listed(standard_regions(), with_sea_borders_1(s)[i].0),
        region_listed(standard_regions(), with_sea_borders_1(s)[i].1),
{
    let regs = standard_regions();
    let r: Seq<(RegionName, RegionName, Terrain)> = with_sea_borders_1(s);
    let k: int = i - s.len();
    assert(
        k == 0 || k == 1 || k == 2 || k == 3 || k == 4 || k == 5 || k == 6 || k == 7 || k == 8 || k == 9
            || k == 10 || k == 11 || k == 12 || k == 13 || k == 14 || k == 15 || k == 16 || k == 17 || k == 18 || k == 19
            || k == 20 || k == 21 || k == 22 || k == 23 || k == 24 || k == 25 || k == 26 || k == 27 || k == 28 || k == 29
            || k == 30 || k == 31 || k == 32 || k == 33 || k == 34 || k == 35 || k == 36 || k == 37 || k == 38 || k == 39
            || k == 40 || k == 41 || k == 42 || k == 43 || k == 44 || k == 45 || k == 46
    );
    if k == 0 {
        assert(r[i] == (("ion"@, None::<Coast>), ("nap"@, None::<Coast>), Terrain::Sea));
        assert(region_key_of(regs[31]) == r[i].0);
        assert(region_key_of(regs[44]) == r[i].1);
    }
    if k == 1 {
        assert(r[i] == (("ion"@, None::<Coast>), ("tun"@, None::<Coast>), Terrain::Sea));
        assert(region_key_of(regs[31]) == r[i].0);
        assert(region_key_of(regs[70]) == r[i].1);
    }
    if k == 2 {
        assert(r[i] == (("iri"@, None::<Coast>), ("lvp"@, None::<Coast>), Terrain::Sea));
        assert(region_key_of(regs[32]) == r[i].0);
        assert(region_key_of(regs[36]) == r[i].1);
    }
    if k == 3 {
        assert(r[i] == (("iri"@, None::<Coast>), ("wal"@, None::<Coast>), Terrain::Sea));
        assert(region_key_of(regs[32]) == r[i].0);
        assert(region_key_of(regs[77]) == r[i].1);
    }
    if k == 4 {
        assert(r[i] == (("lyo"@, None::<Coast>), ("mar"@, None::<Coast>), Terrain::Sea));
        assert(region_key_of(regs[37]) == r[i].0);
        assert(region_key_of(regs[39]) == r[i].1);
    }
    if k == 5 {
        assert(r[i] == (("lyo"@, None::<Coast>), ("pie"@, None::<Coast>), Terrain::Sea));
        assert(region_key_of(regs[37]) == r[i].0);
        assert(region_key_of(regs[50]) == r[i].1);
    }
    if k == 6 {
        assert(r[i] == (("lyo"@, None::<Coast>), ("spa"@, Some(Coast::South)), Terrain::Sea));
        assert(region_key_of(regs[37]) == r[i].0);
        assert(region_key_of(regs[63]) == r[i].1);
    }
    if k == 7 {
        assert(r[i] == (("lyo"@, None::<Coast>), ("tus"@, None::<Coast>), Terrain::Sea));
        assert(region_key_of(regs[37]) == r[i].0);
        assert(region_key_of(regs[71]) == r[i].1);
    }
    if k == 8 {
        assert(r[i] == (("mao"@, None::<Coast>), ("bre"@, None::<Coast>), Terrain::Sea));
        assert(region_key_of(regs[38]) == r[i].0);
        assert(region_key_of(regs[13]) == r[i].1);
    }
    if k == 9 {
        assert(r[i] == (("mao"@, None::<Coast>), ("gas"@, None::<Coast>), Terrain::Sea));
        assert(region_key_of(regs[38]) == r[i].0);
        assert(region_key_of(regs[27]) == r[i].1);
    }
    if k == 10 {
        assert(r[i] == (("mao"@, None::<Coast>), ("naf"@, None::<Coast>), Terrain::Sea));
        assert(region_key_of(regs[38]) == r[i].0);
        assert(region_key_of(regs[42]) == r[i].1);
    }
    if k == 11 {
        assert(r[i] == (("mao"@, None::<Coast>), ("por"@, None::<Coast>), Terrain::Sea));
        assert(region_key_of(regs[38]) == r[i].0);
        assert(region_key_of(regs[51]) == r[i].1);
    }
    if k == 12 {
        assert(r[i] == (("mao"@, None::<Coast>), ("spa"@, Some(Coast::North)), Terrain::Sea));
        assert(region_key_of(regs[38]) == r[i].0);
        assert(region_key_of(regs[62]) == r[i].1);
    }
    if k == 13 {
        assert(r[i] == (("mao"@, None::<Coast>), ("spa"@, Some(Coast::South)), Terrain::Sea));
        assert(region_key_of(regs[38]) == r[i].0);
        assert(region_key_of(regs[63]) == r[i].1);
    }
    if k == 14 {
        assert(r[i] == (("nao"@, None::<Coast>), ("cly"@, None::<Coast>), Terrain::Sea));
        assert(region_key_of(regs[43]) == r[i].0);
        assert(region_key_of(regs[19]) == r[i].1);
    }
    if k == 15 {
        assert(r[i] == (("nao"@, None::<Coast>), ("lvp"@, None::<Coast>), Terrain::Sea));
        assert(region_key_of(regs[43]) == r[i].0);
        assert(region_key_of(regs[36]) == r[i].1);
    }
    if k == 16 {
        assert(r[i] == (("nth"@, None::<Coast>), ("bel"@, None::<Coast>), Terrain::Sea));
        assert(region_key_of(regs[45]) == r[i].0);
        assert(region_key_of(regs[8]) == r[i].1);
    }
    if k == 17 {
        assert(r[i] == (("nth"@, None::<Coast>), ("den"@, None::<Coast>), Terrain::Sea));
        assert(region_key_of(regs[45]) == r[i].0);
        assert(region_key_of(regs[21]) == r[i].1);
    }
    if k == 18 {
        assert(r[i] == (("nth"@, None::<Coast>), ("edi"@, None::<Coast>), Terrain::Sea));
        assert(region_key_of(regs[45]) == r[i].0);
        assert(region_key_of(regs[23]) == r[i].1);
    }
    if k == 19 {
        assert(r[i] == (("nth"@, None::<Coast>), ("hol"@, None::<Coast>), Terrain::Sea));
        assert(region_key_of(regs[45]) == r[i].0);
        assert(region_key_of(regs[30]) == r[i].1);
    }
    if k == 20 {
        assert(r[i] == (("nth"@, None::<Coast>), ("lon"@, None::<Coast>), Terrain::Sea));
        assert(region_key_of(regs[45]) == r[i].0);
        assert(region_key_of(regs[34]) == r[i].1);
    }
    if k == 21 {
        assert(r[i] == (("nth"@, None::<Coast>), ("nwy"@, None::<Coast>), Terrain::Sea));
        assert(region_key_of(regs[45]) == r[i].0);
        assert(region_key_of(regs[47]) == r[i].1);
    }
    if k == 22 {
        assert(r[i] == (("nth"@, None::<Coast>), ("yor"@, None::<Coast>), Terrain::Sea));
        assert(region_key_of(regs[45]) == r[i].0);
        assert(region_key_of(regs[80]) == r[i].1);
    }
    if k == 23 {
        assert(r[i] == (("nwg"@, None::<Coast>), ("cly"@, None::<Coast>), Terrain::Sea));
        assert(region_key_of(regs[46]) == r[i].0);
        assert(region_key_of(regs[19]) == r[i].1);
    }
    if k == 24 {
        assert(r[i] == (("nwg"@, None::<Coast>), ("edi"@, None::<Coast>), Terrain::Sea));
        assert(region_key_of(regs[46]) == r[i].0);
        assert(region_key_of(regs[23]) == r[i].1);
    }
    if k == 25 {
        assert(r[i] == (("nwg"@, None::<Coast>), ("nwy"@, None::<Coast>), Terrain::Sea));
        assert(region_key_of(regs[46]) == r[i].0);
        assert(region_key_of(regs[47]) == r[i].1);
    }
    if k == 26 {
        assert(r[i] == (("ska"@, None::<Coast>), ("den"@, None::<Coast>), Terrain::Sea));
        assert(region_key_of(regs[59]) == r[i].0);
        assert(region_key_of(regs[21]) == r[i].1);
    }
    if k == 27 {
        assert(r[i] == (("ska"@, None::<Coast>), ("nwy"@, None::<Coast>), Terrain::Sea));
        assert(region_key_of(regs[59]) == r[i].0);
        assert(region_key_of(regs[47]) == r[i].1);
    }
    if k == 28 {
        assert(r[i] == (("ska"@, None::<Coast>), ("swe"@, None::<Coast>), Terrain::Sea));
        assert(region_key_of(regs[59]) == r[i].0);
        assert(region_key_of(regs[67]) == r[i].1);
    }
    if k == 29 {
        assert(r[i] == (("tys"@, None::<Coast>), ("nap"@, None::<Coast>), Terrain::Sea));
        assert(region_key_of(regs[73]) == r[i].0);
        assert(region_key_of(regs[44]) == r[i].1);
    }
    if k == 30 {
        assert(r[i] == (("tys"@, None::<Coast>), ("rom"@, None::<Coast>), Terrain::Sea));
        assert(region_key_of(regs[73]) == r[i].0);
        assert(region_key_of(regs[53]) == r[i].1);
    }
    if k == 31 {
        assert(r[i] == (("tys"@, None::<Coast>), ("tun"@, None::<Coast>), Terrain::Sea));
        assert(region_key_of(regs[73]) == r[i].0);
        assert(region_key_of(regs[70]) == r[i].1);
    }
    if k == 32 {
        assert(r[i] == (("tys"@, None::<Coast>), ("tus"@, None::<Coast>), Terrain::Sea));
        assert(region_key_of(regs[73]) == r[i].0);
        assert(region_key_of(regs[71]) == r[i].1);
    }
    if k == 33 {
        assert(r[i] == (("wes"@, None::<Coast>), ("naf"@, None::<Coast>), Terrain::Sea));
        assert(region_key_of(regs[79]) == r[i].0);
        assert(region_key_of(regs[42]) == r[i].1);
    }
    if k == 34 {
        assert(r[i] == (("wes"@, None::<Coast>), ("spa"@, Some(Coast::South)), Terrain::Sea));
        assert(region_key_of(regs[79]) == r[i].0);
        assert(region_key_of(regs[63]) == r[i].1);
    }
    if k == 35 {
        assert(r[i] == (("wes"@, None::<Coast>), ("tun"@, None::<Coast>), Terrain::Sea));
        assert(region_key_of(regs[79]) == r[i].0);
        assert(region_key_of(regs[70]) == r[i].1);
    }
    if k == 36 {
        assert(r[i] == (("bul"@, Some(Coast::East)), ("con"@, None::<Coast>), Terrain::Sea));
        assert(region_key_of(regs[16]) == r[i].0);
        assert(region_key_of(regs[20]) == r[i].1);
    }
    if k == 37 {
        assert(r[i] == (("bul"@, Some(Coast::East)), ("rum"@, None::<Coast>), Terrain::Sea));
        assert(region_key_of(regs[16]) == r[i].0);
        assert(region_key_of(regs[55]) == r[i].1);
    }
    if k == 38 {
        assert(r[i] == (("bul"@, Some(Coast::South)), ("con"@, None::<Coast>), Terrain::Sea));
        assert(region_key_of(regs[17]) == r[i].0);
        assert(region_key_of(regs[20]) == r[i].1);
    }
    if k == 39 {
        assert(r[i] == (("bul"@, Some(Coast::South)), ("gre"@, None::<Coast>), Terrain::Sea));
        assert(region_key_of(regs[17]) == r[i].0);
        assert(region_key_of(regs[28]) == r[i].1);
    }
    if k == 40 {
        assert(r[i] == (("spa"@, Some(Coast::North)), ("gas"@, None::<Coast>), Terrain::Sea));
        assert(region_key_of(regs[62]) == r[i].0);
        assert(region_key_of(regs[27]) == r[i].1);
    }
    if k == 41 {
        assert(r[i] == (("spa"@, Some(Coast::North)), ("por"@, None::<Coast>), Terrain::Sea));
        assert(region_key_of(regs[62]) == r[i].0);
        assert(region_key_of(regs[51]) == r[i].1);
    }
    if k == 42 {
        assert(r[i] == (("spa"@, Some(Coast::South)), ("mar"@, None::<Coast>), Terrain::Sea));
        assert(region_key_of(regs[63]) == r[i].0);
        assert(region_key_of(regs[39]) == r[i].1);
    }
    if k == 43 {
        assert(r[i] == (("spa"@, Some(Coast::South)), ("por"@, None::<Coast>), Terrain::Sea));
        assert(region_key_of(regs[63]) == r[i].0);
        assert(region_key_of(regs[51]) == r[i].1);
    }
    if k == 44 {
        assert(r[i] == (("stp"@, Some(Coast::North)), ("nwy"@, None::<Coast>), Terrain::Sea));
        assert(region_key_of(regs[65]) == r[i].0);
        assert(region_key_of(regs[47]) == r[i].1);
    }
    if k == 45 {
        assert(r[i] == (("stp"@, Some(Coast::South)), ("fin"@, None::<Coast>), Terrain::Sea));
        assert(region_key_of(regs[66]) == r[i].0);
        assert(region_key_of(regs[25]) == r[i].1);
    }
    if k == 46 {
        assert(r[i] == (("stp"@, Some(Coast::South)), ("lvn"@, None::<Coast>), Terrain::Sea));
        assert(region_key_of(regs[66]) == r[i].0);
        assert(region_key_of(regs[35]) == r[i].1);
    }
}

/// Each border that `with_coast_borders` appends joins two regions of the standard map.
#[verifier::rlimit(100)]
proof fn lemma_with_coast_borders_ends_listed(
    s: Seq<(RegionName, RegionName, Terrain)>,
    i: int,
)
    requires
        s.len() <= i < s.len() + 34,
    ensures
        region_listed(standard_regions(), with_coast_borders(s)[i].0),
        region_listed(standard_regions(), with_coast_borders(s)[i].1),
{
    let regs = standard_regions();
    let r: Seq<(RegionName, RegionName, Terrain)> = with_coast_borders(s);
    let k: int = i - s.len();
    assert(
        k == 0 || k == 1 || k == 2 || k == 3 || k == 4 || k == 5 || k == 6 || k == 7 || k == 8 || k == 9
            || k == 10 || k == 11 || k == 12 || k == 13 || k == 14 || k == 15 || k == 16 || k == 17 || k == 18 || k == 19
            || k == 20 || k == 21 || k == 22 || k == 23 || k == 24 || k == 25 || k == 26 || k == 27 || k == 28 || k == 29
            || k == 30 || k == 31 || k == 32 || k == 33
    );
    if k == 0 {
        assert(r[i] == (("alb"@, None::<Coast>), ("gre"@, None::<Coast>), Terrain::Coast));
        assert(region_key_of(regs[2]) == r[i].0);
        assert(region_key_of(regs[28]) == r[i].1);
    }
    if k == 1 {
        assert(r[i] == (("alb"@, None::<Coast>), ("tri"@, None::<Coast>), Terrain::Coast));
        assert(region_key_of(regs[2]) == r[i].0);
        assert(region_key_of(regs[69]) == r[i].1);
    }
    if k == 2 {
        assert(r[i] == (("ank"@, None::<Coast>), ("arm"@, None::<Coast>), Terrain::Coast));
        assert(region_key_of(regs[3]) == r[i].0);
        assert(region_key_of(regs[5]) == r[i].1);
    }
    if k == 3 {
        assert(r[i] == (("ank"@, None::<Coast>), ("con"@, None::<Coast>), Terrain::Coast));
        assert(region_key_of(regs[3]) == r[i].0);
        assert(region_key_of(regs[20]) == r[i].1);
    }
    if k == 4 {
        assert(r[i] == (("apu"@, None::<Coast>), ("nap"@, None::<Coast>), Terrain::Coast));
        assert(region_key_of(regs[4]) == r[i].0);
        assert(region_key_of(regs[44]) == r[i].1);
    }
    if k == 5 {
        assert(r[i] == (("apu"@, None::<Coast>), ("ven"@, None::<Coast>), Terrain::Coast));
        assert(region_key_of(regs[4]) == r[i].0);
        assert(region_key_of(regs[75]) == r[i].1);
    }
    if k == 6 {
        assert(r[i] == (("arm"@, None::<Coast>), ("sev"@, None::<Coast>), Terrain::Coast));
        assert(region_key_of(regs[5]) == r[i].0);
        assert(region_key_of(regs[57]) == r[i].1);
    }
    if k == 7 {
        assert(r[i] == (("bel"@, None::<Coast>), ("hol"@, None::<Coast>), Terrain::Coast));
        assert(region_key_of(regs[8]) == r[i].0);
        assert(region_key_of(regs[30]) == r[i].1);
    }
    if k == 8 {
        assert(r[i] == (("bel"@, None::<Coast>), ("pic"@, None::<Coast>), Terrain::Coast));
        assert(region_key_of(regs[8]) == r[i].0);
        assert(region_key_of(regs[49]) == r[i].1);
    }
    if k == 9 {
        assert(r[i] == (("ber"@, None::<Coast>), ("kie"@, None::<Coast>), Terrain::Coast));
        assert(region_key_of(regs[9]) == r[i].0);
        assert(region_key_of(regs[33]) == r[i].1);
    }
    if k == 10 {
        assert(r[i] == (("ber"@, None::<Coast>), ("pru"@, None::<Coast>), Terrain::Coast));
        assert(region_key_of(regs[9]) == r[i].0);
        assert(region_key_of(regs[52]) == r[i].1);
    }
    if k == 11 {
        assert(r[i] == (("bre"@, None::<Coast>), ("gas"@, None::<Coast>), Terrain::Coast));
        assert(region_key_of(regs[13]) == r[i].0);
        assert(region_key_of(regs[27]) == r[i].1);
    }
    if k == 12 {
        assert(r[i] == (("bre"@, None::<Coast>), ("pic"@, None::<Coast>), Terrain::Coast));
        assert(region_key_of(regs[13]) == r[i].0);
        assert(region_key_of(regs[49]) == r[i].1);
    }
    if k == 13 {
        assert(r[i] == (("cly"@, None::<Coast>), ("edi"@, None::<Coast>), Terrain::Coast));
        assert(region_key_of(regs[19]) == r[i].0);
        assert(region_key_of(regs[23]) == r[i].1);
    }
    if k == 14 {
        assert(r[i] == (("cly"@, None::<Coast>), ("lvp"@, None::<Coast>), Terrain::Coast));
        assert(region_key_of(regs[19]) == r[i].0);
        assert(region_key_of(regs[36]) == r[i].1);
    }
    if k == 15 {
        assert(r[i] == (("con"@, None::<Coast>), ("smy"@, None::<Coast>), Terrain::Coast));
        assert(region_key_of(regs[20]) == r[i].0);
        assert(region_key_of(regs[60]) == r[i].1);
    }
    if k == 16 {
        assert(r[i] == (("den"@, None::<Coast>), ("kie"@, None::<Coast>), Terrain::Coast));
        assert(region_key_of(regs[21]) == r[i].0);
        assert(region_key_of(regs[33]) == r[i].1);
    }
    if k == 17 {
        assert(r[i] == (("den"@, None::<Coast>), ("swe"@, None::<Coast>), Terrain::Coast));
        assert(region_key_of(regs[21]) == r[i].0);
        assert(region_key_of(regs[67]) == r[i].1);
    }
    if k == 18 {
        assert(r[i] == (("edi"@, None::<Coast>), ("yor"@, None::<Coast>), Terrain::Coast));
        assert(region_key_of(regs[23]) == r[i].0);
        assert(region_key_of(regs[80]) == r[i].1);
    }
    if k == 19 {
        assert(r[i] == (("fin"@, None::<Coast>), ("swe"@, None::<Coast>), Terrain::Coast));
        assert(region_key_of(regs[25]) == r[i].0);
        assert(region_key_of(regs[67]) == r[i].1);
    }
    if k == 20 {
        assert(r[i] == (("hol"@, None::<Coast>), ("kie"@, None::<Coast>), Terrain::Coast));
        assert(region_key_of(regs[30]) == r[i].0);
        assert(region_key_of(regs[33]) == r[i].1);
    }
    if k == 21 {
        assert(r[i] == (("lon"@, None::<Coast>), ("wal"@, None::<Coast>), Terrain::Coast));
        assert(region_key_of(regs[34]) == r[i].0);
        assert(region_key_of(regs[77]) == r[i].1);
    }
    if k == 22 {
        assert(r[i] == (("lon"@, None::<Coast>), ("yor"@, None::<Coast>), Terrain::Coast));
        assert(region_key_of(regs[34]) == r[i].0);
        assert(region_key_of(regs[80]) == r[i].1);
    }
    if k == 23 {
        assert(r[i] == (("lvn"@, None::<Coast>), ("pru"@, None::<Coast>), Terrain::Coast));
        assert(region_key_of(regs[35]) == r[i].0);
        assert(region_key_of(regs[52]) == r[i].1);
    }
    if k == 24 {
        assert(r[i] == (("lvp"@, None::<Coast>), ("wal"@, None::<Coast>), Terrain::Coast));
        assert(region_key_of(regs[36]) == r[i].0);
        assert(region_key_of(regs[77]) == r[i].1);
    }
    if k == 25 {
        assert(r[i] == (("mar"@, None::<Coast>), ("pie"@, None::<Coast>), Terrain::Coast));
        assert(region_key_of(regs[39]) == r[i].0);
        assert(region_key_of(regs[50]) == r[i].1);
    }
    if k == 26 {
        assert(r[i] == (("naf"@, None::<Coast>), ("tun"@, None::<Coast>), Terrain::Coast));
        assert(region_key_of(regs[42]) == r[i].0);
        assert(region_key_of(regs[70]) == r[i].1);
    }
    if k == 27 {
        assert(r[i] == (("nap"@, None::<Coast>), ("rom"@, None::<Coast>), Terrain::Coast));
        assert(region_key_of(regs[44]) == r[i].0);
        assert(region_key_of(regs[53]) == r[i].1);
    }
    if k == 28 {
        assert(r[i] == (("nwy"@, None::<Coast>), ("swe"@, None::<Coast>), Terrain::Coast));
        assert(region_key_of(regs[47]) == r[i].0);
        assert(region_key_of(regs[67]) == r[i].1);
    }
    if k == 29 {
        assert(r[i] == (("pie"@, None::<Coast>), ("tus"@, None::<Coast>), Terrain::Coast));
        assert(region_key_of(regs[50]) == r[i].0);
        assert(region_key_of(regs[71]) == r[i].1);
    }
    if k == 30 {
        assert(r[i] == (("rom"@, None::<Coast>), ("tus"@, None::<Coast>), Terrain::Coast));
        assert(region_key_of(regs[53]) == r[i].0);
        assert(region_key_of(regs[71]) == r[i].1);
    }
    if k == 31 {
        assert(r[i] == (("rum"@, None::<Coast>), ("sev"@, None::<Coast>), Terrain::Coast));
        assert(region_key_of(regs[55]) == r[i].0);
        assert(region_key_of(regs[57]) == r[i].1);
    }
    if k == 32 {
        assert(r[i] == (("smy"@, None::<Coast>), ("syr"@, None::<Coast>), Terrain::Coast));
        assert(region_key_of(regs[60]) == r[i].0);
        assert(region_key_of(regs[68]) == r[i].1);
    }
    if k == 33 {
        assert(r[i] == (("tri"@, None::<Coast>), ("ven"@, None::<Coast>), Terrain::Coast));
        assert(region_key_of(regs[69]) == r[i].0);
        assert(region_key_of(regs[75]) == r[i].1);
    }
}

/// Each border that `with_land_borders_0` appends joins two regions of the standard map.
#[verifier::rlimit(100)]
proof fn lemma_with_land_borders_0_ends_listed(
    s: Seq<(RegionName, RegionName, Terrain)>,
    i: int,
)
    requires
        s.len() <= i < s.len() + 60,
    ensures
        region_listed(standard_regions(), with_land_borders_0(s)[i].0),
        region_listed(standard_regions(), with_land_borders_0(s)[i].1),
{
    let regs = standard_regions();
    let r: Seq<(RegionName, RegionName, Terrain)> = with_land_borders_0(s);
    let k: int = i - s.len();
    assert(
        k == 0 || k == 1 || k == 2 || k == 3 || k == 4 || k == 5 || k == 6 || k == 7 || k == 8 || k == 9
            || k == 10 || k == 11 || k == 12 || k == 13 || k == 14 || k == 15 || k == 16 || k == 17 || k == 18 || k == 19
            || k == 20 || k == 21 || k == 22 || k == 23 || k == 24 || k == 25 || k == 26 || k == 27 || k == 28 || k == 29
            || k == 30 || k == 31 || k == 32 || k == 33 || k == 34 || k == 35 || k == 36 || k == 37 || k == 38 || k == 39
            || k == 40 || k == 41 || k == 42 || k == 43 || k == 44 || k == 45 || k == 46 || k == 47 || k == 48 || k == 49
            || k == 50 || k == 51 || k == 52 || k == 53 || k == 54 || k == 55 || k == 56 || k == 57 || k == 58 || k == 59
    );
    if k == 0 {
        assert(r[i] == (("alb"@, None::<Coast>), ("ser"@, None::<Coast>), Terrain::Land));
        assert(region_key_of(regs[2]) == r[i].0);
        assert(region_key_of(regs[56]) == r[i].1);
    }
    if k == 1 {
        assert(r[i] == (("ank"@, None::<Coast>), ("smy"@, None::<Coast>), Terrain::Land));
        assert(region_key_of(regs[3]) == r[i].0);
        assert(region_key_of(regs[60]) == r[i].1);
    }
    if k == 2 {
        assert(r[i] == (("apu"@, None::<Coast>), ("rom"@, None::<Coast>), Terrain::Land));
        assert(region_key_of(regs[4]) == r[i].0);
        assert(region_key_of(regs[53]) == r[i].1);
    }
    if k == 3 {
        assert(r[i] == (("arm"@, None::<Coast>), ("smy"@, None::<Coast>), Terrain::Land));
        assert(region_key_of(regs[5]) == r[i].0);
        assert(region_key_of(regs[60]) == r[i].1);
    }
    if k == 4 {
        assert(r[i] == (("arm"@, None::<Coast>), ("syr"@, None::<Coast>), Terrain::Land));
        assert(region_key_of(regs[5]) == r[i].0);
        assert(region_key_of(regs[68]) == r[i].1);
    }
    if k == 5 {
        assert(r[i] == (("bel"@, None::<Coast>), ("bur"@, None::<Coast>), Terrain::Land));
        assert(region_key_of(regs[8]) == r[i].0);
        assert(region_key_of(regs[18]) == r[i].1);
    }
    if k == 6 {
        assert(r[i] == (("bel"@, None::<Coast>), ("ruh"@, None::<Coast>), Terrain::Land));
        assert(region_key_of(regs[8]) == r[i].0);
        assert(region_key_of(regs[54]) == r[i].1);
    }
    if k == 7 {
        assert(r[i] == (("ber"@, None::<Coast>), ("mun"@, None::<Coast>), Terrain::Land));
        assert(region_key_of(regs[9]) == r[i].0);
        assert(region_key_of(regs[41]) == r[i].1);
    }
    if k == 8 {
        assert(r[i] == (("ber"@, None::<Coast>), ("sil"@, None::<Coast>), Terrain::Land));
        assert(region_key_of(regs[9]) == r[i].0);
        assert(region_key_of(regs[58]) == r[i].1);
    }
    if k == 9 {
        assert(r[i] == (("boh"@, None::<Coast>), ("gal"@, None::<Coast>), Terrain::Land));
        assert(region_key_of(regs[11]) == r[i].0);
        assert(region_key_of(regs[26]) == r[i].1);
    }
    if k == 10 {
        assert(r[i] == (("boh"@, None::<Coast>), ("mun"@, None::<Coast>), Terrain::Land));
        assert(region_key_of(regs[11]) == r[i].0);
        assert(region_key_of(regs[41]) == r[i].1);
    }
    if k == 11 {
        assert(r[i] == (("boh"@, None::<Coast>), ("sil"@, None::<Coast>), Terrain::Land));
        assert(region_key_of(regs[11]) == r[i].0);
        assert(region_key_of(regs[58]) == r[i].1);
    }
    if k == 12 {
        assert(r[i] == (("boh"@, None::<Coast>), ("tyr"@, None::<Coast>), Terrain::Land));
        assert(region_key_of(regs[11]) == r[i].0);
        assert(region_key_of(regs[72]) == r[i].1);
    }
    if k == 13 {
        assert(r[i] == (("boh"@, None::<Coast>), ("vie"@, None::<Coast>), Terrain::Land));
        assert(region_key_of(regs[11]) == r[i].0);
        assert(region_key_of(regs[76]) == r[i].1);
    }
    if k == 14 {
        assert(r[i] == (("bre"@, None::<Coast>), ("par"@, None::<Coast>), Terrain::Land));
        assert(region_key_of(regs[13]) == r[i].0);
        assert(region_key_of(regs[48]) == r[i].1);
    }
    if k == 15 {
        assert(r[i] == (("bud"@, None::<Coast>), ("gal"@, None::<Coast>), Terrain::Land));
        assert(region_key_of(regs[14]) == r[i].0);
        assert(region_key_of(regs[26]) == r[i].1);
    }
    if k == 16 {
        assert(r[i] == (("bud"@, None::<Coast>), ("rum"@, None::<Coast>), Terrain::Land));
        assert(region_key_of(regs[14]) == r[i].0);
        assert(region_key_of(regs[55]) == r[i].1);
    }
    if k == 17 {
        assert(r[i] == (("bud"@, None::<Coast>), ("ser"@, None::<Coast>), Terrain::Land));
        assert(region_key_of(regs[14]) == r[i].0);
        assert(region_key_of(regs[56]) == r[i].1);
    }
    if k == 18 {
        assert(r[i] == (("bud"@, None::<Coast>), ("tri"@, None::<Coast>), Terrain::Land));
        assert(region_key_of(regs[14]) == r[i].0);
        assert(region_key_of(regs[69]) == r[i].1);
    }
    if k == 19 {
        assert(r[i] == (("bud"@, None::<Coast>), ("vie"@, None::<Coast>), Terrain::Land));
        assert(region_key_of(regs[14]) == r[i].0);
        assert(region_key_of(regs[76]) == r[i].1);
    }
    if k == 20 {
        assert(r[i] == (("bul"@, None::<Coast>), ("con"@, None::<Coast>), Terrain::Land));
        assert(region_key_of(regs[15]) == r[i].0);
        assert(region_key_of(regs[20]) == r[i].1);
    }
    if k == 21 {
        assert(r[i] == (("bul"@, None::<Coast>), ("gre"@, None::<Coast>), Terrain::Land));
        assert(region_key_of(regs[15]) == r[i].0);
        assert(region_key_of(regs[28]) == r[i].1);
    }
    if k == 22 {
        assert(r[i] == (("bul"@, None::<Coast>), ("rum"@, None::<Coast>), Terrain::Land));
        assert(region_key_of(regs[15]) == r[i].0);
        assert(region_key_of(regs[55]) == r[i].1);
    }
    if k == 23 {
        assert(r[i] == (("bul"@, None::<Coast>), ("ser"@, None::<Coast>), Terrain::Land));
        assert(region_key_of(regs[15]) == r[i].0);
        assert(region_key_of(regs[56]) == r[i].1);
    }
    if k == 24 {
        assert(r[i] == (("bur"@, None::<Coast>), ("gas"@, None::<Coast>), Terrain::Land));
        assert(region_key_of(regs[18]) == r[i].0);
        assert(region_key_of(regs[27]) == r[i].1);
    }
    if k == 25 {
        assert(r[i] == (("bur"@, None::<Coast>), ("mar"@, None::<Coast>), Terrain::Land));
        assert(region_key_of(regs[18]) == r[i].0);
        assert(region_key_of(regs[39]) == r[i].1);
    }
    if k == 26 {
        assert(r[i] == (("bur"@, None::<Coast>), ("mun"@, None::<Coast>), Terrain::Land));
        assert(region_key_of(regs[18]) == r[i].0);
        assert(region_key_of(regs[41]) == r[i].1);
    }
    if k == 27 {
        assert(r[i] == (("bur"@, None::<Coast>), ("par"@, None::<Coast>), Terrain::Land));
        assert(region_key_of(regs[18]) == r[i].0);
        assert(region_key_of(regs[48]) == r[i].1);
    }
    if k == 28 {
        assert(r[i] == (("bur"@, None::<Coast>), ("pic"@, None::<Coast>), Terrain::Land));
        assert(region_key_of(regs[18]) == r[i].0);
        assert(region_key_of(regs[49]) == r[i].1);
    }
    if k == 29 {
        assert(r[i] == (("bur"@, None::<Coast>), ("ruh"@, None::<Coast>), Terrain::Land));
        assert(region_key_of(regs[18]) == r[i].0);
        assert(region_key_of(regs[54]) == r[i].1);
    }
    if k == 30 {
        assert(r[i] == (("edi"@, None::<Coast>), ("lvp"@, None::<Coast>), Terrain::Land));
        assert(region_key_of(regs[23]) == r[i].0);
        assert(region_key_of(regs[36]) == r[i].1);
    }
    if k == 31 {
        assert(r[i] == (("fin"@, None::<Coast>), ("nwy"@, None::<Coast>), Terrain::Land));
        assert(region_key_of(regs[25]) == r[i].0);
        assert(region_key_of(regs[47]) == r[i].1);
    }
    if k == 32 {
        assert(r[i] == (("fin"@, None::<Coast>), ("stp"@, None::<Coast>), Terrain::Land));
        assert(region_key_of(regs[25]) == r[i].0);
        assert(region_key_of(regs[64]) == r[i].1);
    }
    if k == 33 {
        assert(r[i] == (("gal"@, None::<Coast>), ("rum"@, None::<Coast>), Terrain::Land));
        assert(region_key_of(regs[26]) == r[i].0);
        assert(region_key_of(regs[55]) == r[i].1);
    }
    if k == 34 {
        assert(r[i] == (("gal"@, None::<Coast>), ("sil"@, None::<Coast>), Terrain::Land));
        assert(region_key_of(regs[26]) == r[i].0);
        assert(region_key_of(regs[58]) == r[i].1);
    }
    if k == 35 {
        assert(r[i] == (("gal"@, None::<Coast>), ("ukr"@, None::<Coast>), Terrain::Land));
        assert(region_key_of(regs[26]) == r[i].0);
        assert(region_key_of(regs[74]) == r[i].1);
    }
    if k == 36 {
        assert(r[i] == (("gal"@, None::<Coast>), ("vie"@, None::<Coast>), Terrain::Land));
        assert(region_key_of(regs[26]) == r[i].0);
        assert(region_key_of(regs[76]) == r[i].1);
    }
    if k == 37 {
        assert(r[i] == (("gal"@, None::<Coast>), ("war"@, None::<Coast>), Terrain::Land));
        assert(region_key_of(regs[26]) == r[i].0);
        assert(region_key_of(regs[78]) == r[i].1);
    }
    if k == 38 {
        assert(r[i] == (("gas"@, None::<Coast>), ("mar"@, None::<Coast>), Terrain::Land));
        assert(region_key_of(regs[27]) == r[i].0);
        assert(region_key_of(regs[39]) == r[i].1);
    }
    if k == 39 {
        assert(r[i] == (("gas"@, None::<Coast>), ("par"@, None::<Coast>), Terrain::Land));
        assert(region_key_of(regs[27]) == r[i].0);
        assert(region_key_of(regs[48]) == r[i].1);
    }
    if k == 40 {
        assert(r[i] == (("gas"@, None::<Coast>), ("spa"@, None::<Coast>), Terrain::Land));
        assert(region_key_of(regs[27]) == r[i].0);
        assert(region_key_of(regs[61]) == r[i].1);
    }
    if k == 41 {
        assert(r[i] == (("gre"@, None::<Coast>), ("ser"@, None::<Coast>), Terrain::Land));
        assert(region_key_of(regs[28]) == r[i].0);
        assert(region_key_of(regs[56]) == r[i].1);
    }
    if k == 42 {
        assert(r[i] == (("hol"@, None::<Coast>), ("ruh"@, None::<Coast>), Terrain::Land));
        assert(region_key_of(regs[30]) == r[i].0);
        assert(region_key_of(regs[54]) == r[i].1);
    }
    if k == 43 {
        assert(r[i] == (("kie"@, None::<Coast>), ("mun"@, None::<Coast>), Terrain::Land));
        assert(region_key_of(regs[33]) == r[i].0);
        assert(region_key_of(regs[41]) == r[i].1);
    }
    if k == 44 {
        assert(r[i] == (("kie"@, None::<Coast>), ("ruh"@, None::<Coast>), Terrain::Land));
        assert(region_key_of(regs[33]) == r[i].0);
        assert(region_key_of(regs[54]) == r[i].1);
    }
    if k == 45 {
        assert(r[i] == (("lvn"@, None::<Coast>), ("mos"@, None::<Coast>), Terrain::Land));
        assert(region_key_of(regs[35]) == r[i].0);
        assert(region_key_of(regs[40]) == r[i].1);
    }
    if k == 46 {
        assert(r[i] == (("lvn"@, None::<Coast>), ("stp"@, None::<Coast>), Terrain::Land));
        assert(region_key_of(regs[35]) == r[i].0);
        assert(region_key_of(regs[64]) == r[i].1);
    }
    if k == 47 {
        assert(r[i] == (("lvn"@, None::<Coast>), ("war"@, None::<Coast>), Terrain::Land));
        assert(region_key_of(regs[35]) == r[i].0);
        assert(region_key_of(regs[78]) == r[i].1);
    }
    if k == 48 {
        assert(r[i] == (("lvp"@, None::<Coast>), ("yor"@, None::<Coast>), Terrain::Land));
        assert(region_key_of(regs[36]) == r[i].0);
        assert(region_key_of(regs[80]) == r[i].1);
    }
    if k == 49 {
        assert(r[i] == (("mar"@, None::<Coast>), ("spa"@, None::<Coast>), Terrain::Land));
        assert(region_key_of(regs[39]) == r[i].0);
        assert(region_key_of(regs[61]) == r[i].1);
    }
    if k == 50 {
        assert(r[i] == (("mos"@, None::<Coast>), ("sev"@, None::<Coast>), Terrain::Land));
        assert(region_key_of(regs[40]) == r[i].0);
        assert(region_key_of(regs[57]) == r[i].1);
    }
    if k == 51 {
        assert(r[i] == (("mos"@, None::<Coast>), ("stp"@, None::<Coast>), Terrain::Land));
        assert(region_key_of(regs[40]) == r[i].0);
        assert(region_key_of(regs[64]) == r[i].1);
    }
    if k == 52 {
        assert(r[i] == (("mos"@, None::<Coast>), ("ukr"@, None::<Coast>), Terrain::Land));
        assert(region_key_of(regs[40]) == r[i].0);
        assert(region_key_of(regs[74]) == r[i].1);
    }
    if k == 53 {
        assert(r[i] == (("mos"@, None::<Coast>), ("war"@, None::<Coast>), Terrain::Land));
        assert(region_key_of(regs[40]) == r[i].0);
        assert(region_key_of(regs[78]) == r[i].1);
    }
    if k == 54 {
        assert(r[i] == (("mun"@, None::<Coast>), ("ruh"@, None::<Coast>), Terrain::Land));
        assert(region_key_of(regs[41]) == r[i].0);
        assert(region_key_of(regs[54]) == r[i].1);
    }
    if k == 55 {
        assert(r[i] == (("mun"@, None::<Coast>), ("sil"@, None::<Coast>), Terrain::Land));
        assert(region_key_of(regs[41]) == r[i].0);
        assert(region_key_of(regs[58]) == r[i].1);
    }
    if k == 56 {
        assert(r[i] == (("mun"@, None::<Coast>), ("tyr"@, None::<Coast>), Terrain::Land));
        assert(region_key_of(regs[41]) == r[i].0);
        assert(region_key_of(regs[72]) == r[i].1);
    }
    if k == 57 {
        assert(r[i] == (("nwy"@, None::<Coast>), ("stp"@, None::<Coast>), Terrain::Land));
        assert(region_key_of(regs[47]) == r[i].0);
        assert(region_key_of(regs[64]) == r[i].1);
    }
    if k == 58 {
        assert(r[i] == (("par"@, None::<Coast>), ("pic"@, None::<Coast>), Terrain::Land));
        assert(region_key_of(regs[48]) == r[i].0);
        assert(region_key_of(regs[49]) == r[i].1);
    }
    if k == 59 {
        assert(r[i] == (("pie"@, None::<Coast>), ("tyr"@, None::<Coast>), Terrain::Land));
        assert(region_key_of(regs[50]) == r[i].0);
        assert(region_key_of(regs[72]) == r[i].1);
    }
}

/// Each border that `with_land_borders_1` appends joins two regions of the standard map.
#[verifier::rlimit(100)]
proof fn lemma_with_land_borders_1_ends_listed(
    s: Seq<(RegionName, RegionName, Terrain)>,
    i: int,
)
    requires
        s.len() <= i < s.len() + 17,
    ensures
        region_listed(standard_regions(), with_land_borders_1(s)[i].0),
        region_listed(standard_regions(), with_land_borders_1(s)[i].1),
{
    let regs = standard_regions();
    let r: Seq<(RegionName, RegionName, Terrain)> = with_land_borders_1(s);
    let k: int = i - s.len();
    assert(
        k == 0 || k == 1 || k == 2 || k == 3 || k == 4 || k == 5 || k == 6 || k == 7 || k == 8 || k == 9
            || k == 10 || k == 11 || k == 12 || k == 13 || k == 14 || k == 15 || k == 16
    );
    if k == 0 {
        assert(r[i] == (("pie"@, None::<Coast>), ("ven"@, None::<Coast>), Terrain::Land));
        assert(region_key_of(regs[50]) == r[i].0);
        assert(region_key_of(regs[75]) == r[i].1);
    }
    if k == 1 {
        assert(r[i] == (("por"@, None::<Coast>), ("spa"@, None::<Coast>), Terrain::Land));
        assert(region_key_of(regs[51]) == r[i].0);
        assert(region_key_of(regs[61]) == r[i].1);
    }
    if k == 2 {
        assert(r[i] == (("pru"@, None::<Coast>), ("sil"@, None::<Coast>), Terrain::Land));
        assert(region_key_of(regs[52]) == r[i].0);
        assert(region_key_of(regs[58]) == r[i].1);
    }
    if k == 3 {
        assert(r[i] == (("pru"@, None::<Coast>), ("war"@, None::<Coast>), Terrain::Land));
        assert(region_key_of(regs[52]) == r[i].0);
        assert(region_key_of(regs[78]) == r[i].1);
    }
    if k == 4 {
        assert(r[i] == (("rom"@, None::<Coast>), ("ven"@, None::<Coast>), Terrain::Land));
        assert(region_key_of(regs[53]) == r[i].0);
        assert(region_key_of(regs[75]) == r[i].1);
    }
    if k == 5 {
        assert(r[i] == (("rum"@, None::<Coast>), ("ser"@, None::<Coast>), Terrain::Land));
        assert(region_key_of(regs[55]) == r[i].0);
        assert(region_key_of(regs[56]) == r[i].1);
    }
    if k == 6 {
        assert(r[i] == (("rum"@, None::<Coast>), ("ukr"@, None::<Coast>), Terrain::Land));
        assert(region_key_of(regs[55]) == r[i].0);
        assert(region_key_of(regs[74]) == r[i].1);
    }
    if k == 7 {
        assert(r[i] == (("ser"@, None::<Coast>), ("tri"@, None::<Coast>), Terrain::Land));
        assert(region_key_of(regs[56]) == r[i].0);
        assert(region_key_of(regs[69]) == r[i].1);
    }
    if k == 8 {
        assert(r[i] == (("sev"@, None::<Coast>), ("ukr"@, None::<Coast>), Terrain::Land));
        assert(region_key_of(regs[57]) == r[i].0);
        assert(region_key_of(regs[74]) == r[i].1);
    }
    if k == 9 {
        assert(r[i] == (("sil"@, None::<Coast>), ("war"@, None::<Coast>), Terrain::Land));
        assert(region_key_of(regs[58]) == r[i].0);
        assert(region_key_of(regs[78]) == r[i].1);
    }
    if k == 10 {
        assert(r[i] == (("tri"@, None::<Coast>), ("tyr"@, None::<Coast>), Terrain::Land));
        assert(region_key_of(regs[69]) == r[i].0);
        assert(region_key_of(regs[72]) == r[i].1);
    }
    if k == 11 {
        assert(r[i] == (("tri"@, None::<Coast>), ("vie"@, None::<Coast>), Terrain::Land));
        assert(region_key_of(regs[69]) == r[i].0);
        assert(region_key_of(regs[76]) == r[i].1);
    }
    if k == 12 {
        assert(r[i] == (("tus"@, None::<Coast>), ("ven"@, None::<Coast>), Terrain::Land));
        assert(region_key_of(regs[71]) == r[i].0);
        assert(region_key_of(regs[75]) == r[i].1);
    }
    if k == 13 {
        assert(r[i] == (("tyr"@, None::<Coast>), ("ven"@, None::<Coast>), Terrain::Land));
        assert(region_key_of(regs[72]) == r[i].0);
        assert(region_key_of(regs[75]) == r[i].1);
    }
    if k == 14 {
        assert(r[i] == (("tyr"@, None::<Coast>), ("vie"@, None::<Coast>), Terrain::Land));
        assert(region_key_of(regs[72]) == r[i].0);
        assert(region_key_of(regs[76]) == r[i].1);
    }
    if k == 15 {
        assert(r[i] == (("ukr"@, None::<Coast>), ("war"@, None::<Coast>), Terrain::Land));
        assert(region_key_of(regs[74]) == r[i].0);
        assert(region_key_of(regs[78]) == r[i].1);
    }
    if k == 16 {
        assert(r[i] == (("wal"@, None::<Coast>), ("yor"@, None::<Coast>), Terrain::Land));
        assert(region_key_of(regs[77]) == r[i].0);
        assert(region_key_of(regs[80]) == r[i].1);
    }
}

/// Every border of the standard map joins two regions of the map.
pub proof fn lemma_standard_borders_join_regions(m: MapView)
    requires
        m.regions == standard_regions(),
        m.borders == standard_borders(),
    ensures
        forall|i: int|
            #![trigger m.borders[i]]
            0 <= i < m.borders.len() ==> region_listed(m.regions, m.borders[i].0)
                && region_listed(m.regions, m.borders[i].1),
{
    let e: Seq<(RegionName, RegionName, Terrain)> = Seq::empty();
    let s0 = with_sea_borders_0(e);
    let s1 = with_sea_borders_1(s0);
    let c = with_coast_borders(s1);
    let l0 = with_land_borders_0(c);
    lemma_with_sea_borders_0_prefix(e);
    lemma_with_sea_borders_1_prefix(s0);
    lemma_with_coast_borders_prefix(s1);
    lemma_with_land_borders_0_prefix(c);
    lemma_with_land_borders_1_prefix(l0);
    assert forall|i: int|
        #![trigger m.borders[i]]
        0 <= i < m.borders.len() implies region_listed(m.regions, m.borders[i].0)
            && region_listed(m.regions, m.borders[i].1) by {
        if i < 60 {
            assert(m.borders[i] == s0[i]);
            lemma_with_sea_borders_0_ends_listed(e, i);
        } else if i < 107 {
            assert(m.borders[i] == s1[i]);
            lemma_with_sea_borders_1_ends_listed(s0, i);
        } else if i < 141 {
            assert(m.borders[i] == c[i]);
            lemma_with_coast_borders_ends_listed(s1, i);
        } else if i < 201 {
            assert(m.borders[i] == l0[i]);
            lemma_with_land_borders_0_ends_listed(c, i);
        } else {
            lemma_with_land_borders_1_ends_listed(l0, i);
        }
    }
}

/// Whether an army can cross some border between the provinces `a` and `b`, each taken as its
/// region without a coast.
pub open spec fn army_border(m: MapView, a: Seq<char>, b: Seq<char>) -> bool {
    exists|i: int|
        0 <= i < m.borders.len() && #[trigger] border_connects(m.borders[i], (a, None), (b, None))
            && spec_can_occupy(UnitType::Army, m.borders[i].2)
}

/// None of the borders that `with_sea_borders_0` appends joins Spain, taken without a
/// coast, to a province taken without a coast.
#[verifier::rlimit(100)]
proof fn lemma_with_sea_borders_0_at_spain(
    s: Seq<(RegionName, RegionName, Terrain)>,
    i: int,
    p: Seq<char>,
)
    requires
        s.len() <= i < s.len() + 60,
    ensures
        !border_connects(with_sea_borders_0(s)[i], ("spa"@, None), (p, None)),
{
    reveal_strlit("adr");
    reveal_strlit("aeg");
    reveal_strlit("alb");
    reveal_strlit("ank");
    reveal_strlit("apu");
    reveal_strlit("arm");
    reveal_strlit("bal");
    reveal_strlit("bar");
    reveal_strlit("bel");
    reveal_strlit("ber");
    reveal_strlit("bla");
    reveal_strlit("bot");
    reveal_strlit("bre");
    reveal_strlit("bul");
    reveal_strlit("con");
    reveal_strlit("den");
    reveal_strlit("eas");
    reveal_strlit("eng");
    reveal_strlit("fin");
    reveal_strlit("gre");
    reveal_strlit("hel");
    reveal_strlit("hol");
    reveal_strlit("ion");
    reveal_strlit("iri");
    reveal_strlit("kie");
    reveal_strlit("lon");
    reveal_strlit("lvn");
    reveal_strlit("lyo");
    reveal_strlit("mao");
    reveal_strlit("nao");
    reveal_strlit("nth");
    reveal_strlit("nwg");
    reveal_strlit("nwy");
    reveal_strlit("pic");
    reveal_strlit("pru");
    reveal_strlit("rum");
    reveal_strlit("sev");
    reveal_strlit("ska");
    reveal_strlit("smy");
    reveal_strlit("spa");
    reveal_strlit("stp");
    reveal_strlit("swe");
    reveal_strlit("syr");
    reveal_strlit("tri");
    reveal_strlit("tys");
    reveal_strlit("ven");
    reveal_strlit("wal");
    reveal_strlit("wes");
    assert("adr"@[0] != "spa"@[0]);
    assert("aeg"@[0] != "spa"@[0]);
    assert("alb"@[0] != "spa"@[0]);
    assert("ank"@[0] != "spa"@[0]);
    assert("apu"@[0] != "spa"@[0]);
    assert("arm"@[0] != "spa"@[0]);
    assert("bal"@[0] != "spa"@[0]);
    assert("bar"@[0] != "spa"@[0]);
    assert("bel"@[0] != "spa"@[0]);
    assert("ber"@[0] != "spa"@[0]);
    assert("bla"@[0] != "spa"@[0]);
    assert("bot"@[0] != "spa"@[0]);
    assert("bre"@[0] != "spa"@[0]);
    assert("bul"@[0] != "spa"@[0]);
    assert("con"@[0] != "spa"@[0]);
    assert("den"@[0] != "spa"@[0]);
    assert("eas"@[0] != "spa"@[0]);
    assert("eng"@[0] != "spa"@[0]);
    assert("fin"@[0] != "spa"@[0]);
    assert("gre"@[0] != "spa"@[0]);
    assert("hel"@[0] != "spa"@[0]);
    assert("hol"@[0] != "spa"@[0]);
    assert("ion"@[0] != "spa"@[0]);
    assert("iri"@[0] != "spa"@[0]);
    assert("kie"@[0] != "spa"@[0]);
    assert("lon"@[0] != "spa"@[0]);
    assert("lvn"@[0] != "spa"@[0]);
    assert("lyo"@[0] != "spa"@[0]);
    assert("mao"@[0] != "spa"@[0]);
    assert("nao"@[0] != "spa"@[0]);
    assert("nth"@[0] != "spa"@[0]);
    assert("nwg"@[0] != "spa"@[0]);
    assert("nwy"@[0] != "spa"@[0]);
    assert("pic"@[0] != "spa"@[0]);
    assert("pru"@[0] != "spa"@[0]);
    assert("rum"@[0] != "spa"@[0]);
    assert("sev"@[1] != "spa"@[1]);
    assert("ska"@[1] != "spa"@[1]);
    assert("smy"@[1] != "spa"@[1]);
    assert("stp"@[1] != "spa"@[1]);
    assert("swe"@[1] != "spa"@[1]);
    assert("syr"@[1] != "spa"@[1]);
    assert("tri"@[0] != "spa"@[0]);
    assert("tys"@[0] != "spa"@[0]);
    assert("ven"@[0] != "spa"@[0]);
    assert("wal"@[0] != "spa"@[0]);
    assert("wes"@[0] != "spa"@[0]);
    let r: Seq<(RegionName, RegionName, Terrain)> = with_sea_borders_0(s);
    assert(r[s.len() + 0int] == (("adr"@, None::<Coast>), ("ion"@, None::<Coast>), Terrain::Sea));
    assert(r[s.len() + 1int] == (("aeg"@, None::<Coast>), ("eas"@, None::<Coast>), Terrain::Sea));
    assert(r[s.len() + 2int] == (("aeg"@, None::<Coast>), ("ion"@, None::<Coast>), Terrain::Sea));
    assert(r[s.len() + 3int] == (("bal"@, None::<Coast>), ("bot"@, None::<Coast>), Terrain::Sea));
    assert(r[s.len() + 4int] == (("bar"@, None::<Coast>), ("nwg"@, None::<Coast>), Terrain::Sea));
    assert(r[s.len() + 5int] == (("eas"@, None::<Coast>), ("ion"@, None::<Coast>), Terrain::Sea));
    assert(r[s.len() + 6int] == (("eng"@, None::<Coast>), ("iri"@, None::<Coast>), Terrain::Sea));
    assert(r[s.len() + 7int] == (("eng"@, None::<Coast>), ("mao"@, None::<Coast>), Terrain::Sea));
    assert(r[s.len() + 8int] == (("eng"@, None::<Coast>), ("nth"@, None::<Coast>), Terrain::Sea));
    assert(r[s.len() + 9int] == (("hel"@, None::<Coast>), ("nth"@, None::<Coast>), Terrain::Sea));
    assert(r[s.len() + 10int] == (("ion"@, None::<Coast>), ("tys"@, None::<Coast>), Terrain::Sea));
    assert(r[s.len() + 11int] == (("iri"@, None::<Coast>), ("mao"@, None::<Coast>), Terrain::Sea));
    assert(r[s.len() + 12int] == (("iri"@, None::<Coast>), ("nao"@, None::<Coast>), Terrain::Sea));
    assert(r[s.len() + 13int] == (("lyo"@, None::<Coast>), ("tys"@, None::<Coast>), Terrain::Sea));
    assert(r[s.len() + 14int] == (("lyo"@, None::<Coast>), ("wes"@, None::<Coast>), Terrain::Sea));
    assert(r[s.len() + 15int] == (("mao"@, None::<Coast>), ("nao"@, None::<Coast>), Terrain::Sea));
    assert(r[s.len() + 16int] == (("mao"@, None::<Coast>), ("wes"@, None::<Coast>), Terrain::Sea));
    assert(r[s.len() + 17int] == (("nao"@, None::<Coast>), ("nwg"@, None::<Coast>), Terrain::Sea));
    assert(r[s.len() + 18int] == (("nth"@, None::<Coast>), ("nwg"@, None::<Coast>), Terrain::Sea));
    assert(r[s.len() + 19int] == (("nth"@, None::<Coast>), ("ska"@, None::<Coast>), Terrain::Sea));
    assert(r[s.len() + 20int] == (("tys"@, None::<Coast>), ("wes"@, None::<Coast>), Terrain::Sea));
    assert(r[s.len() + 21int] == (("adr"@, None::<Coast>), ("alb"@, None::<Coast>), Terrain::Sea));
    assert(r[s.len() + 22int] == (("adr"@, None::<Coast>), ("apu"@, None::<Coast>), Terrain::Sea));
    assert(r[s.len() + 23int] == (("adr"@, None::<Coast>), ("tri"@, None::<Coast>), Terrain::Sea));
    assert(r[s.len() + 24int] == (("adr"@, None::<Coast>), ("ven"@, None::<Coast>), Terrain::Sea));
    assert(r[s.len() + 25int] == (("aeg"@, None::<Coast>), ("bul"@, Some(Coast::South)), Terrain::Sea));
    assert(r[s.len() + 26int] == (("aeg"@, None::<Coast>), ("con"@, None::<Coast>), Terrain::Sea));
    assert(r[s.len() + 27int] == (("aeg"@, None::<Coast>), ("gre"@, None::<Coast>), Terrain::Sea));
    assert(r[s.len() + 28int] == (("aeg"@, None::<Coast>), ("smy"@, None::<Coast>), Terrain::Sea));
    assert(r[s.len() + 29int] == (("bal"@, None::<Coast>), ("ber"@, None::<Coast>), Terrain::Sea));
    assert(r[s.len() + 30int] == (("bal"@, None::<Coast>), ("den"@, None::<Coast>), Terrain::Sea));
    assert(r[s.len() + 31int] == (("bal"@, None::<Coast>), ("kie"@, None::<Coast>), Terrain::Sea));
    assert(r[s.len() + 32int] == (("bal"@, None::<Coast>), ("lvn"@, None::<Coast>), Terrain::Sea));
    assert(r[s.len() + 33int] == (("bal"@, None::<Coast>), ("pru"@, None::<Coast>), Terrain::Sea));
    assert(r[s.len() + 34int] == (("bal"@, None::<Coast>), ("swe"@, None::<Coast>), Terrain::Sea));
    assert(r[s.len() + 35int] == (("bar"@, None::<Coast>), ("nwy"@, None::<Coast>), Terrain::Sea));
    assert(r[s.len() + 36int] == (("bar"@, None::<Coast>), ("stp"@, Some(Coast::North)), Terrain::Sea));
    assert(r[s.len() + 37int] == (("bla"@, None::<Coast>), ("ank"@, None::<Coast>), Terrain::Sea));
    assert(r[s.len() + 38int] == (("bla"@, None::<Coast>), ("arm"@, None::<Coast>), Terrain::Sea));
    assert(r[s.len() + 39int] == (("bla"@, None::<Coast>), ("bul"@, Some(Coast::East)), Terrain::Sea));
    assert(r[s.len() + 40int] == (("bla"@, None::<Coast>), ("con"@, None::<Coast>), Terrain::Sea));
    assert(r[s.len() + 41int] == (("bla"@, None::<Coast>), ("rum"@, None::<Coast>), Terrain::Sea));
    assert(r[s.len() + 42int] == (("bla"@, None::<Coast>), ("sev"@, None::<Coast>), Terrain::Sea));
    assert(r[s.len() + 43int] == (("bot"@, None::<Coast>), ("fin"@, None::<Coast>), Terrain::Sea));
    assert(r[s.len() + 44int] == (("bot"@, None::<Coast>), ("lvn"@, None::<Coast>), Terrain::Sea));
    assert(r[s.len() + 45int] == (("bot"@, None::<Coast>), ("stp"@, Some(Coast::South)), Terrain::Sea));
    assert(r[s.len() + 46int] == (("bot"@, None::<Coast>), ("swe"@, None::<Coast>), Terrain::Sea));
    assert(r[s.len() + 47int] == (("eas"@, None::<Coast>), ("smy"@, None::<Coast>), Terrain::Sea));
    assert(r[s.len() + 48int] == (("eas"@, None::<Coast>), ("syr"@, None::<Coast>), Terrain::Sea));
    assert(r[s.len() + 49int] == (("eng"@, None::<Coast>), ("bel"@, None::<Coast>), Terrain::Sea));
    assert(r[s.len() + 50int] == (("eng"@, None::<Coast>), ("bre"@, None::<Coast>), Terrain::Sea));
    assert(r[s.len() + 51int] == (("eng"@, None::<Coast>), ("lon"@, None::<Coast>), Terrain::Sea));
    assert(r[s.len() + 52int] == (("eng"@, None::<Coast>), ("pic"@, None::<Coast>), Terrain::Sea));
    assert(r[s.len() + 53int] == (("eng"@, None::<Coast>), ("wal"@, None::<Coast>), Terrain::Sea));
    assert(r[s.len() + 54int] == (("hel"@, None::<Coast>), ("den"@, None::<Coast>), Terrain::Sea));
    assert(r[s.len() + 55int] == (("hel"@, None::<Coast>), ("hol"@, None::<Coast>), Terrain::Sea));
    assert(r[s.len() + 56int] == (("hel"@, None::<Coast>), ("kie"@, None::<Coast>), Terrain::Sea));
    assert(r[s.len() + 57int] == (("ion"@, None::<Coast>), ("alb"@, None::<Coast>), Terrain::Sea));
    assert(r[s.len() + 58int] == (("ion"@, None::<Coast>), ("apu"@, None::<Coast>), Terrain::Sea));
    assert(r[s.len() + 59int] == (("ion"@, None::<Coast>), ("gre"@, None::<Coast>), Terrain::Sea));
    let k: int = i - s.len();
    assert(
        k == 0 || k == 1 || k == 2 || k == 3 || k == 4 || k == 5 || k == 6 || k == 7 || k == 8 || k == 9
            || k == 10 || k == 11 || k == 12 || k == 13 || k == 14 || k == 15 || k == 16 || k == 17 || k == 18 || k == 19
            || k == 20 || k == 21 || k == 22 || k == 23 || k == 24 || k == 25 || k == 26 || k == 27 || k == 28 || k == 29
            || k == 30 || k == 31 || k == 32 || k == 33 || k == 34 || k == 35 || k == 36 || k == 37 || k == 38 || k == 39
            || k == 40 || k == 41 || k == 42 || k == 43 || k == 44 || k == 45 || k == 46 || k == 47 || k == 48 || k == 49
            || k == 50 || k == 51 || k == 52 || k == 53 || k == 54 || k == 55 || k == 56 || k == 57 || k == 58 || k == 59
    );
}

/// None of the borders that `with_sea_borders_1` appends joins Spain, taken without a
/// coast, to a province taken without a coast.
#[verifier::rlimit(100)]
proof fn lemma_with_sea_borders_1_at_spain(
    s: Seq<(RegionName, RegionName, Terrain)>,
    i: int,
    p: Seq<char>,
)
    requires
        s.len() <= i < s.len() + 47,
    ensures
        !border_connects(with_sea_borders_1(s)[i], ("spa"@, None), (p, None)),
{
    reveal_strlit("bel");
    reveal_strlit("bre");
    reveal_strlit("bul");
    reveal_strlit("cly");
    reveal_strlit("con");
    reveal_strlit("den");
    reveal_strlit("edi");
    reveal_strlit("fin");
    reveal_strlit("gas");
    reveal_strlit("gre");
    reveal_strlit("hol");
    reveal_strlit("ion");
    reveal_strlit("iri");
    reveal_strlit("lon");
    reveal_strlit("lvn");
    reveal_strlit("lvp");
    reveal_strlit("lyo");
    reveal_strlit("mao");
    reveal_strlit("mar");
    reveal_strlit("naf");
    reveal_strlit("nao");
    reveal_strlit("nap");
    reveal_strlit("nth");
    reveal_strlit("nwg");
    reveal_strlit("nwy");
    reveal_strlit("pie");
    reveal_strlit("por");
    reveal_strlit("rom");
    reveal_strlit("rum");
    reveal_strlit("ska");
    reveal_strlit("spa");
    reveal_strlit("stp");
    reveal_strlit("swe");
    reveal_strlit("tun");
    reveal_strlit("tus");
    reveal_strlit("tys");
    reveal_strlit("wal");
    reveal_strlit("wes");
    reveal_strlit("yor");
    assert("bel"@[0] != "spa"@[0]);
    assert("bre"@[0] != "spa"@[0]);
    assert("bul"@[0] != "spa"@[0]);
    assert("cly"@[0] != "spa"@[0]);
    assert("con"@[0] != "spa"@[0]);
    assert("den"@[0] != "spa"@[0]);
    assert("edi"@[0] != "spa"@[0]);
    assert("fin"@[0] != "spa"@[0]);
    assert("gas"@[0] != "spa"@[0]);
    assert("gre"@[0] != "spa"@[0]);
    assert("hol"@[0] != "spa"@[0]);
    assert("ion"@[0] != "spa"@[0]);
    assert("iri"@[0] != "spa"@[0]);
    assert("lon"@[0] != "spa"@[0]);
    assert("lvn"@[0] != "spa"@[0]);
    assert("lvp"@[0] != "spa"@[0]);
    assert("lyo"@[0] != "spa"@[0]);
    assert("mao"@[0] != "spa"@[0]);
    assert("mar"@[0] != "spa"@[0]);
    assert("naf"@[0] != "spa"@[0]);
    assert("nao"@[0] != "spa"@[0]);
    assert("nap"@[0] != "spa"@[0]);
    assert("nth"@[0] != "spa"@[0]);
    assert("nwg"@[0] != "spa"@[0]);
    assert("nwy"@[0] != "spa"@[0]);
    assert("pie"@[0] != "spa"@[0]);
    assert("por"@[0] != "spa"@[0]);
    assert("rom"@[0] != "spa"@[0]);
    assert("rum"@[0] != "spa"@[0]);
    assert("ska"@[1] != "spa"@[1]);
    assert("stp"@[1] != "spa"@[1]);
    assert("swe"@[1] != "spa"@[1]);
    assert("tun"@[0] != "spa"@[0]);
    assert("tus"@[0] != "spa"@[0]);
    assert("tys"@[0] != "spa"@[0]);
    assert("wal"@[0] != "spa"@[0]);
    assert("wes"@[0] != "spa"@[0]);
    assert("yor"@[0] != "spa"@[0]);
    let r: Seq<(RegionName, RegionName, Terrain)> = with_sea_borders_1(s);
    assert(r[s.len() + 0int] == (("ion"@, None::<Coast>), ("nap"@, None::<Coast>), Terrain::Sea));
    assert(r[s.len() + 1int] == (("ion"@, None::<Coast>), ("tun"@, None::<Coast>), Terrain::Sea));
    assert(r[s.len() + 2int] == (("iri"@, None::<Coast>), ("lvp"@, None::<Coast>), Terrain::Sea));
    assert(r[s.len() + 3int] == (("iri"@, None::<Coast>), ("wal"@, None::<Coast>), Terrain::Sea));
    assert(r[s.len() + 4int] == (("lyo"@, None::<Coast>), ("mar"@, None::<Coast>), Terrain::Sea));
    assert(r[s.len() + 5int] == (("lyo"@, None::<Coast>), ("pie"@, None::<Coast>), Terrain::Sea));
    assert(r[s.len() + 6int] == (("lyo"@, None::<Coast>), ("spa"@, Some(Coast::South)), Terrain::Sea));
    assert(r[s.len() + 7int] == (("lyo"@, None::<Coast>), ("tus"@, None::<Coast>), Terrain::Sea));
    assert(r[s.len() + 8int] == (("mao"@, None::<Coast>), ("bre"@, None::<Coast>), Terrain::Sea));
    assert(r[s.len() + 9int] == (("mao"@, None::<Coast>), ("gas"@, None::<Coast>), Terrain::Sea));
    assert(r[s.len() + 10int] == (("mao"@, None::<Coast>), ("naf"@, None::<Coast>), Terrain::Sea));
    assert(r[s.len() + 11int] == (("mao"@, None::<Coast>), ("por"@, None::<Coast>), Terrain::Sea));
    assert(r[s.len() + 12int] == (("mao"@, None::<Coast>), ("spa"@, Some(Coast::North)), Terrain::Sea));
    assert(r[s.len() + 13int] == (("mao"@, None::<Coast>), ("spa"@, Some(Coast::South)), Terrain::Sea));
    assert(r[s.len() + 14int] == (("nao"@, None::<Coast>), ("cly"@, None::<Coast>), Terrain::Sea));
    assert(r[s.len() + 15int] == (("nao"@, None::<Coast>), ("lvp"@, None::<Coast>), Terrain::Sea));
    assert(r[s.len() + 16int] == (("nth"@, None::<Coast>), ("bel"@, None::<Coast>), Terrain::Sea));
    assert(r[s.len() + 17int] == (("nth"@, None::<Coast>), ("den"@, None::<Coast>), Terrain::Sea));
    assert(r[s.len() + 18int] == (("nth"@, None::<Coast>), ("edi"@, None::<Coast>), Terrain::Sea));
    assert(r[s.len() + 19int] == (("nth"@, None::<Coast>), ("hol"@, None::<Coast>), Terrain::Sea));
    assert(r[s.len() + 20int] == (("nth"@, None::<Coast>), ("lon"@, None::<Coast>), Terrain::Sea));
    assert(r[s.len() + 21int] == (("nth"@, None::<Coast>), ("nwy"@, None::<Coast>), Terrain::Sea));
    assert(r[s.len() + 22int] == (("nth"@, None::<Coast>), ("yor"@, None::<Coast>), Terrain::Sea));
    assert(r[s.len() + 23int] == (("nwg"@, None::<Coast>), ("cly"@, None::<Coast>), Terrain::Sea));
    assert(r[s.len() + 24int] == (("nwg"@, None::<Coast>), ("edi"@, None::<Coast>), Terrain::Sea));
    assert(r[s.len() + 25int] == (("nwg"@, None::<Coast>), ("nwy"@, None::<Coast>), Terrain::Sea));
    assert(r[s.len() + 26int] == (("ska"@, None::<Coast>), ("den"@, None::<Coast>), Terrain::Sea));
    assert(r[s.len() + 27int] == (("ska"@, None::<Coast>), ("nwy"@, None::<Coast>), Terrain::Sea));
    assert(r[s.len() + 28int] == (("ska"@, None::<Coast>), ("swe"@, None::<Coast>), Terrain::Sea));
    assert(r[s.len() + 29int] == (("tys"@, None::<Coast>), ("nap"@, None::<Coast>), Terrain::Sea));
    assert(r[s.len() + 30int] == (("tys"@, None::<Coast>), ("rom"@, None::<Coast>), Terrain::Sea));
    assert(r[s.len() + 31int] == (("tys"@, None::<Coast>), ("tun"@, None::<Coast>), Terrain::Sea));
    assert(r[s.len() + 32int] == (("tys"@, None::<Coast>), ("tus"@, None::<Coast>), Terrain::Sea));
    assert(r[s.len() + 33int] == (("wes"@, None::<Coast>), ("naf"@, None::<Coast>), Terrain::Sea));
    assert(r[s.len() + 34int] == (("wes"@, None::<Coast>), ("spa"@, Some(Coast::South)), Terrain::Sea));
    assert(r[s.len() + 35int] == (("wes"@, None::<Coast>), ("tun"@, None::<Coast>), Terrain::Sea));
    assert(r[s.len() + 36int] == (("bul"@, Some(Coast::East)), ("con"@, None::<Coast>), Terrain::Sea));
    assert(r[s.len() + 37int] == (("bul"@, Some(Coast::East)), ("rum"@, None::<Coast>), Terrain::Sea));
    assert(r[s.len() + 38int] == (("bul"@, Some(Coast::South)), ("con"@, None::<Coast>), Terrain::Sea));
    assert(r[s.len() + 39int] == (("bul"@, Some(Coast::South)), ("gre"@, None::<Coast>), Terrain::Sea));
    assert(r[s.len() + 40int] == (("spa"@, Some(Coast::North)), ("gas"@, None::<Coast>), Terrain::Sea));
    assert(r[s.len() + 41int] == (("spa"@, Some(Coast::North)), ("por"@, None::<Coast>), Terrain::Sea));
    assert(r[s.len() + 42int] == (("spa"@, Some(Coast::South)), ("mar"@, None::<Coast>), Terrain::Sea));
    assert(r[s.len() + 43int] == (("spa"@, Some(Coast::South)), ("por"@, None::<Coast>), Terrain::Sea));
    assert(r[s.len() + 44int] == (("stp"@, Some(Coast::North)), ("nwy"@, None::<Coast>), Terrain::Sea));
    assert(r[s.len() + 45int] == (("stp"@, Some(Coast::South)), ("fin"@, None::<Coast>), Terrain::Sea));
    assert(r[s.len() + 46int] == (("stp"@, Some(Coast::South)), ("lvn"@, None::<Coast>), Terrain::Sea));
    let k: int = i - s.len();
    assert(
        k == 0 || k == 1 || k == 2 || k == 3 || k == 4 || k == 5 || k == 6 || k == 7 || k == 8 || k == 9
            || k == 10 || k == 11 || k == 12 || k == 13 || k == 14 || k == 15 || k == 16 || k == 17 || k == 18 || k == 19
            || k == 20 || k == 21 || k == 22 || k == 23 || k == 24 || k == 25 || k == 26 || k == 27 || k == 28 || k == 29
            || k == 30 || k == 31 || k == 32 || k == 33 || k == 34 || k == 35 || k == 36 || k == 37 || k == 38 || k == 39
            || k == 40 || k == 41 || k == 42 || k == 43 || k == 44 || k == 45 || k == 46
    );
}

/// None of the borders that `with_coast_borders` appends joins Spain, taken without a
/// coast, to a province taken without a coast.
#[verifier::rlimit(100)]
proof fn lemma_with_coast_borders_at_spain(
    s: Seq<(RegionName, RegionName, Terrain)>,
    i: int,
    p: Seq<char>,
)
    requires
        s.len() <= i < s.len() + 34,
    ensures
        !border_connects(with_coast_borders(s)[i], ("spa"@, None), (p, None)),
{
    reveal_strlit("alb");
    reveal_strlit("ank");
    reveal_strlit("apu");
    reveal_strlit("arm");
    reveal_strlit("bel");
    reveal_strlit("ber");
    reveal_strlit("bre");
    reveal_strlit("cly");
    reveal_strlit("con");
    reveal_strlit("den");
    reveal_strlit("edi");
    reveal_strlit("fin");
    reveal_strlit("gas");
    reveal_strlit("gre");
    reveal_strlit("hol");
    reveal_strlit("kie");
    reveal_strlit("lon");
    reveal_strlit("lvn");
    reveal_strlit("lvp");
    reveal_strlit("mar");
    reveal_strlit("naf");
    reveal_strlit("nap");
    reveal_strlit("nwy");
    reveal_strlit("pic");
    reveal_strlit("pie");
    reveal_strlit("pru");
    reveal_strlit("rom");
    reveal_strlit("rum");
    reveal_strlit("sev");
    reveal_strlit("smy");
    reveal_strlit("spa");
    reveal_strlit("swe");
    reveal_strlit("syr");
    reveal_strlit("tri");
    reveal_strlit("tun");
    reveal_strlit("tus");
    reveal_strlit("ven");
    reveal_strlit("wal");
    reveal_strlit("yor");
    assert("alb"@[0] != "spa"@[0]);
    assert("ank"@[0] != "spa"@[0]);
    assert("apu"@[0] != "spa"@[0]);
    assert("arm"@[0] != "spa"@[0]);
    assert("bel"@[0] != "spa"@[0]);
    assert("ber"@[0] != "spa"@[0]);
    assert("bre"@[0] != "spa"@[0]);
    assert("cly"@[0] != "spa"@[0]);
    assert("con"@[0] != "spa"@[0]);
    assert("den"@[0] != "spa"@[0]);
    assert("edi"@[0] != "spa"@[0]);
    assert("fin"@[0] != "spa"@[0]);
    assert("gas"@[0] != "spa"@[0]);
    assert("gre"@[0] != "spa"@[0]);
    assert("hol"@[0] != "spa"@[0]);
    assert("kie"@[0] != "spa"@[0]);
    assert("lon"@[0] != "spa"@[0]);
    assert("lvn"@[0] != "spa"@[0]);
    assert("lvp"@[0] != "spa"@[0]);
    assert("mar"@[0] != "spa"@[0]);
    assert("naf"@[0] != "spa"@[0]);
    assert("nap"@[0] != "spa"@[0]);
    assert("nwy"@[0] != "spa"@[0]);
    assert("pic"@[0] != "spa"@[0]);
    assert("pie"@[0] != "spa"@[0]);
    assert("pru"@[0] != "spa"@[0]);
    assert("rom"@[0] != "spa"@[0]);
    assert("rum"@[0] != "spa"@[0]);
    assert("sev"@[1] != "spa"@[1]);
    assert("smy"@[1] != "spa"@[1]);
    assert("swe"@[1] != "spa"@[1]);
    assert("syr"@[1] != "spa"@[1]);
    assert("tri"@[0] != "spa"@[0]);
    assert("tun"@[0] != "spa"@[0]);
    assert("tus"@[0] != "spa"@[0]);
    assert("ven"@[0] != "spa"@[0]);
    assert("wal"@[0] != "spa"@[0]);
    assert("yor"@[0] != "spa"@[0]);
    let r: Seq<(RegionName, RegionName, Terrain)> = with_coast_borders(s);
    assert(r[s.len() + 0int] == (("alb"@, None::<Coast>), ("gre"@, None::<Coast>), Terrain::Coast));
    assert(r[s.len() + 1int] == (("alb"@, None::<Coast>), ("tri"@, None::<Coast>), Terrain::Coast));
    assert(r[s.len() + 2int] == (("ank"@, None::<Coast>), ("arm"@, None::<Coast>), Terrain::Coast));
    assert(r[s.len() + 3int] == (("ank"@, None::<Coast>), ("con"@, None::<Coast>), Terrain::Coast));
    assert(r[s.len() + 4int] == (("apu"@, None::<Coast>), ("nap"@, None::<Coast>), Terrain::Coast));
    assert(r[s.len() + 5int] == (("apu"@, None::<Coast>), ("ven"@, None::<Coast>), Terrain::Coast));
    assert(r[s.len() + 6int] == (("arm"@, None::<Coast>), ("sev"@, None::<Coast>), Terrain::Coast));
    assert(r[s.len() + 7int] == (("bel"@, None::<Coast>), ("hol"@, None::<Coast>), Terrain::Coast));
    assert(r[s.len() + 8int] == (("bel"@, None::<Coast>), ("pic"@, None::<Coast>), Terrain::Coast));
    assert(r[s.len() + 9int] == (("ber"@, None::<Coast>), ("kie"@, None::<Coast>), Terrain::Coast));
    assert(r[s.len() + 10int] == (("ber"@, None::<Coast>), ("pru"@, None::<Coast>), Terrain::Coast));
    assert(r[s.len() + 11int] == (("bre"@, None::<Coast>), ("gas"@, None::<Coast>), Terrain::Coast));
    assert(r[s.len() + 12int] == (("bre"@, None::<Coast>), ("pic"@, None::<Coast>), Terrain::Coast));
    assert(r[s.len() + 13int] == (("cly"@, None::<Coast>), ("edi"@, None::<Coast>), Terrain::Coast));
    assert(r[s.len() + 14int] == (("cly"@, None::<Coast>), ("lvp"@, None::<Coast>), Terrain::Coast));
    assert(r[s.len() + 15int] == (("con"@, None::<Coast>), ("smy"@, None::<Coast>), Terrain::Coast));
    assert(r[s.len() + 16int] == (("den"@, None::<Coast>), ("kie"@, None::<Coast>), Terrain::Coast));
    assert(r[s.len() + 17int] == (("den"@, None::<Coast>), ("swe"@, None::<Coast>), Terrain::Coast));
    assert(r[s.len() + 18int] == (("edi"@, None::<Coast>), ("yor"@, None::<Coast>), Terrain::Coast));
    assert(r[s.len() + 19int] == (("fin"@, None::<Coast>), ("swe"@, None::<Coast>), Terrain::Coast));
    assert(r[s.len() + 20int] == (("hol"@, None::<Coast>), ("kie"@, None::<Coast>), Terrain::Coast));
    assert(r[s.len() + 21int] == (("lon"@, None::<Coast>), ("wal"@, None::<Coast>), Terrain::Coast));
    assert(r[s.len() + 22int] == (("lon"@, None::<Coast>), ("yor"@, None::<Coast>), Terrain::Coast));
    assert(r[s.len() + 23int] == (("lvn"@, None::<Coast>), ("pru"@, None::<Coast>), Terrain::Coast));
    assert(r[s.len() + 24int] == (("lvp"@, None::<Coast>), ("wal"@, None::<Coast>), Terrain::Coast));
    assert(r[s.len() + 25int] == (("mar"@, None::<Coast>), ("pie"@, None::<Coast>), Terrain::Coast));
    assert(r[s.len() + 26int] == (("naf"@, None::<Coast>), ("tun"@, None::<Coast>), Terrain::Coast));
    assert(r[s.len() + 27int] == (("nap"@, None::<Coast>), ("rom"@, None::<Coast>), Terrain::Coast));
    assert(r[s.len() + 28int] == (("nwy"@, None::<Coast>), ("swe"@, None::<Coast>), Terrain::Coast));
    assert(r[s.len() + 29int] == (("pie"@, None::<Coast>), ("tus"@, None::<Coast>), Terrain::Coast));
    assert(r[s.len() + 30int] == (("rom"@, None::<Coast>), ("tus"@, None::<Coast>), Terrain::Coast));
    assert(r[s.len() + 31int] == (("rum"@, None::<Coast>), ("sev"@, None::<Coast>), Terrain::Coast));
    assert(r[s.len() + 32int] == (("smy"@, None::<Coast>), ("syr"@, None::<Coast>), Terrain::Coast));
    assert(r[s.len() + 33int] == (("tri"@, None::<Coast>), ("ven"@, None::<Coast>), Terrain::Coast));
    let k: int = i - s.len();
    assert(
        k == 0 || k == 1 || k == 2 || k == 3 || k == 4 || k == 5 || k == 6 || k == 7 || k == 8 || k == 9
            || k == 10 || k == 11 || k == 12 || k == 13 || k == 14 || k == 15 || k == 16 || k == 17 || k == 18 || k == 19
            || k == 20 || k == 21 || k == 22 || k == 23 || k == 24 || k == 25 || k == 26 || k == 27 || k == 28 || k == 29
            || k == 30 || k == 31 || k == 32 || k == 33
    );
}

/// The borders that `with_land_borders_0` appends which join Spain, taken without a coast,
/// to a province taken without a coast.
#[verifier::rlimit(100)]
proof fn lemma_with_land_borders_0_at_spain(
    s: Seq<(RegionName, RegionName, Terrain)>,
    i: int,
    p: Seq<char>,
)
    requires
        s.len() <= i < s.len() + 60,
        border_connects(with_land_borders_0(s)[i], ("spa"@, None), (p, None)),
    ensures
        p == "gas"@ || p == "mar"@,
        with_land_borders_0(s)[i].2 == Terrain::Land,
{
    reveal_strlit("alb");
    reveal_strlit("ank");
    reveal_strlit("apu");
    reveal_strlit("arm");
    reveal_strlit("bel");
    reveal_strlit("ber");
    reveal_strlit("boh");
    reveal_strlit("bre");
    reveal_strlit("bud");
    reveal_strlit("bul");
    reveal_strlit("bur");
    reveal_strlit("con");
    reveal_strlit("edi");
    reveal_strlit("fin");
    reveal_strlit("gal");
    reveal_strlit("gas");
    reveal_strlit("gre");
    reveal_strlit("hol");
    reveal_strlit("kie");
    reveal_strlit("lvn");
    reveal_strlit("lvp");
    reveal_strlit("mar");
    reveal_strlit("mos");
    reveal_strlit("mun");
    reveal_strlit("nwy");
    reveal_strlit("par");
    reveal_strlit("pic");
    reveal_strlit("pie");
    reveal_strlit("rom");
    reveal_strlit("ruh");
    reveal_strlit("rum");
    reveal_strlit("ser");
    reveal_strlit("sev");
    reveal_strlit("sil");
    reveal_strlit("smy");
    reveal_strlit("spa");
    reveal_strlit("stp");
    reveal_strlit("syr");
    reveal_strlit("tri");
    reveal_strlit("tyr");
    reveal_strlit("ukr");
    reveal_strlit("vie");
    reveal_strlit("war");
    reveal_strlit("yor");
    assert("alb"@[0] != "spa"@[0]);
    assert("ank"@[0] != "spa"@[0]);
    assert("apu"@[0] != "spa"@[0]);
    assert("arm"@[0] != "spa"@[0]);
    assert("bel"@[0] != "spa"@[0]);
    assert("ber"@[0] != "spa"@[0]);
    assert("boh"@[0] != "spa"@[0]);
    assert("bre"@[0] != "spa"@[0]);
    assert("bud"@[0] != "spa"@[0]);
    assert("bul"@[0] != "spa"@[0]);
    assert("bur"@[0] != "spa"@[0]);
    assert("con"@[0] != "spa"@[0]);
    assert("edi"@[0] != "spa"@[0]);
    assert("fin"@[0] != "spa"@[0]);
    assert("gal"@[0] != "spa"@[0]);
    assert("gas"@[0] != "spa"@[0]);
    assert("gre"@[0] != "spa"@[0]);
    assert("hol"@[0] != "spa"@[0]);
    assert("kie"@[0] != "spa"@[0]);
    assert("lvn"@[0] != "spa"@[0]);
    assert("lvp"@[0] != "spa"@[0]);
    assert("mar"@[0] != "spa"@[0]);
    assert("mos"@[0] != "spa"@[0]);
    assert("mun"@[0] != "spa"@[0]);
    assert("nwy"@[0] != "spa"@[0]);
    assert("par"@[0] != "spa"@[0]);
    assert("pic"@[0] != "spa"@[0]);
    assert("pie"@[0] != "spa"@[0]);
    assert("rom"@[0] != "spa"@[0]);
    assert("ruh"@[0] != "spa"@[0]);
    assert("rum"@[0] != "spa"@[0]);
    assert("ser"@[1] != "spa"@[1]);
    assert("sev"@[1] != "spa"@[1]);
    assert("sil"@[1] != "spa"@[1]);
    assert("smy"@[1] != "spa"@[1]);
    assert("stp"@[1] != "spa"@[1]);
    assert("syr"@[1] != "spa"@[1]);
    assert("tri"@[0] != "spa"@[0]);
    assert("tyr"@[0] != "spa"@[0]);
    assert("ukr"@[0] != "spa"@[0]);
    assert("vie"@[0] != "spa"@[0]);
    assert("war"@[0] != "spa"@[0]);
    assert("yor"@[0] != "spa"@[0]);
    let r: Seq<(RegionName, RegionName, Terrain)> = with_land_borders_0(s);
    assert(r[s.len() + 0int] == (("alb"@, None::<Coast>), ("ser"@, None::<Coast>), Terrain::Land));
    assert(r[s.len() + 1int] == (("ank"@, None::<Coast>), ("smy"@, None::<Coast>), Terrain::Land));
    assert(r[s.len() + 2int] == (("apu"@, None::<Coast>), ("rom"@, None::<Coast>), Terrain::Land));
    assert(r[s.len() + 3int] == (("arm"@, None::<Coast>), ("smy"@, None::<Coast>), Terrain::Land));
    assert(r[s.len() + 4int] == (("arm"@, None::<Coast>), ("syr"@, None::<Coast>), Terrain::Land));
    assert(r[s.len() + 5int] == (("bel"@, None::<Coast>), ("bur"@, None::<Coast>), Terrain::Land));
    assert(r[s.len() + 6int] == (("bel"@, None::<Coast>), ("ruh"@, None::<Coast>), Terrain::Land));
    assert(r[s.len() + 7int] == (("ber"@, None::<Coast>), ("mun"@, None::<Coast>), Terrain::Land));
    assert(r[s.len() + 8int] == (("ber"@, None::<Coast>), ("sil"@, None::<Coast>), Terrain::Land));
    assert(r[s.len() + 9int] == (("boh"@, None::<Coast>), ("gal"@, None::<Coast>), Terrain::Land));
    assert(r[s.len() + 10int] == (("boh"@, None::<Coast>), ("mun"@, None::<Coast>), Terrain::Land));
    assert(r[s.len() + 11int] == (("boh"@, None::<Coast>), ("sil"@, None::<Coast>), Terrain::Land));
    assert(r[s.len() + 12int] == (("boh"@, None::<Coast>), ("tyr"@, None::<Coast>), Terrain::Land));
    assert(r[s.len() + 13int] == (("boh"@, None::<Coast>), ("vie"@, None::<Coast>), Terrain::Land));
    assert(r[s.len() + 14int] == (("bre"@, None::<Coast>), ("par"@, None::<Coast>), Terrain::Land));
    assert(r[s.len() + 15int] == (("bud"@, None::<Coast>), ("gal"@, None::<Coast>), Terrain::Land));
    assert(r[s.len() + 16int] == (("bud"@, None::<Coast>), ("rum"@, None::<Coast>), Terrain::Land));
    assert(r[s.len() + 17int] == (("bud"@, None::<Coast>), ("ser"@, None::<Coast>), Terrain::Land));
    assert(r[s.len() + 18int] == (("bud"@, None::<Coast>), ("tri"@, None::<Coast>), Terrain::Land));
    assert(r[s.len() + 19int] == (("bud"@, None::<Coast>), ("vie"@, None::<Coast>), Terrain::Land));
    assert(r[s.len() + 20int] == (("bul"@, None::<Coast>), ("con"@, None::<Coast>), Terrain::Land));
    assert(r[s.len() + 21int] == (("bul"@, None::<Coast>), ("gre"@, None::<Coast>), Terrain::Land));
    assert(r[s.len() + 22int] == (("bul"@, None::<Coast>), ("rum"@, None::<Coast>), Terrain::Land));
    assert(r[s.len() + 23int] == (("bul"@, None::<Coast>), ("ser"@, None::<Coast>), Terrain::Land));
    assert(r[s.len() + 24int] == (("bur"@, None::<Coast>), ("gas"@, None::<Coast>), Terrain::Land));
    assert(r[s.len() + 25int] == (("bur"@, None::<Coast>), ("mar"@, None::<Coast>), Terrain::Land));
    assert(r[s.len() + 26int] == (("bur"@, None::<Coast>), ("mun"@, None::<Coast>), Terrain::Land));
    assert(r[s.len() + 27int] == (("bur"@, None::<Coast>), ("par"@, None::<Coast>), Terrain::Land));
    assert(r[s.len() + 28int] == (("bur"@, None::<Coast>), ("pic"@, None::<Coast>), Terrain::Land));
    assert(r[s.len() + 29int] == (("bur"@, None::<Coast>), ("ruh"@, None::<Coast>), Terrain::Land));
    assert(r[s.len() + 30int] == (("edi"@, None::<Coast>), ("lvp"@, None::<Coast>), Terrain::Land));
    assert(r[s.len() + 31int] == (("fin"@, None::<Coast>), ("nwy"@, None::<Coast>), Terrain::Land));
    assert(r[s.len() + 32int] == (("fin"@, None::<Coast>), ("stp"@, None::<Coast>), Terrain::Land));
    assert(r[s.len() + 33int] == (("gal"@, None::<Coast>), ("rum"@, None::<Coast>), Terrain::Land));
    assert(r[s.len() + 34int] == (("gal"@, None::<Coast>), ("sil"@, None::<Coast>), Terrain::Land));
    assert(r[s.len() + 35int] == (("gal"@, None::<Coast>), ("ukr"@, None::<Coast>), Terrain::Land));
    assert(r[s.len() + 36int] == (("gal"@, None::<Coast>), ("vie"@, None::<Coast>), Terrain::Land));
    assert(r[s.len() + 37int] == (("gal"@, None::<Coast>), ("war"@, None::<Coast>), Terrain::Land));
    assert(r[s.len() + 38int] == (("gas"@, None::<Coast>), ("mar"@, None::<Coast>), Terrain::Land));
    assert(r[s.len() + 39int] == (("gas"@, None::<Coast>), ("par"@, None::<Coast>), Terrain::Land));
    assert(r[s.len() + 40int] == (("gas"@, None::<Coast>), ("spa"@, None::<Coast>), Terrain::Land));
    assert(r[s.len() + 41int] == (("gre"@, None::<Coast>), ("ser"@, None::<Coast>), Terrain::Land));
    assert(r[s.len() + 42int] == (("hol"@, None::<Coast>), ("ruh"@, None::<Coast>), Terrain::Land));
    assert(r[s.len() + 43int] == (("kie"@, None::<Coast>), ("mun"@, None::<Coast>), Terrain::Land));
    assert(r[s.len() + 44int] == (("kie"@, None::<Coast>), ("ruh"@, None::<Coast>), Terrain::Land));
    assert(r[s.len() + 45int] == (("lvn"@, None::<Coast>), ("mos"@, None::<Coast>), Terrain::Land));
    assert(r[s.len() + 46int] == (("lvn"@, None::<Coast>), ("stp"@, None::<Coast>), Terrain::Land));
    assert(r[s.len() + 47int] == (("lvn"@, None::<Coast>), ("war"@, None::<Coast>), Terrain::Land));
    assert(r[s.len() + 48int] == (("lvp"@, None::<Coast>), ("yor"@, None::<Coast>), Terrain::Land));
    assert(r[s.len() + 49int] == (("mar"@, None::<Coast>), ("spa"@, None::<Coast>), Terrain::Land));
    assert(r[s.len() + 50int] == (("mos"@, None::<Coast>), ("sev"@, None::<Coast>), Terrain::Land));
    assert(r[s.len() + 51int] == (("mos"@, None::<Coast>), ("stp"@, None::<Coast>), Terrain::Land));
    assert(r[s.len() + 52int] == (("mos"@, None::<Coast>), ("ukr"@, None::<Coast>), Terrain::Land));
    assert(r[s.len() + 53int] == (("mos"@, None::<Coast>), ("war"@, None::<Coast>), Terrain::Land));
    assert(r[s.len() + 54int] == (("mun"@, None::<Coast>), ("ruh"@, None::<Coast>), Terrain::Land));
    assert(r[s.len() + 55int] == (("mun"@, None::<Coast>), ("sil"@, None::<Coast>), Terrain::Land));
    assert(r[s.len() + 56int] == (("mun"@, None::<Coast>), ("tyr"@, None::<Coast>), Terrain::Land));
    assert(r[s.len() + 57int] == (("nwy"@, None::<Coast>), ("stp"@, None::<Coast>), Terrain::Land));
    assert(r[s.len() + 58int] == (("par"@, None::<Coast>), ("pic"@, None::<Coast>), Terrain::Land));
    assert(r[s.len() + 59int] == (("pie"@, None::<Coast>), ("tyr"@, None::<Coast>), Terrain::Land));
    let k: int = i - s.len();
    assert(
        k == 0 || k == 1 || k == 2 || k == 3 || k == 4 || k == 5 || k == 6 || k == 7 || k == 8 || k == 9
            || k == 10 || k == 11 || k == 12 || k == 13 || k == 14 || k == 15 || k == 16 || k == 17 || k == 18 || k == 19
            || k == 20 || k == 21 || k == 22 || k == 23 || k == 24 || k == 25 || k == 26 || k == 27 || k == 28 || k == 29
            || k == 30 || k == 31 || k == 32 || k == 33 || k == 34 || k == 35 || k == 36 || k == 37 || k == 38 || k == 39
            || k == 40 || k == 41 || k == 42 || k == 43 || k == 44 || k == 45 || k == 46 || k == 47 || k == 48 || k == 49
            || k == 50 || k == 51 || k == 52 || k == 53 || k == 54 || k == 55 || k == 56 || k == 57 || k == 58 || k == 59
    );
}

/// The borders that `with_land_borders_1` appends which join Spain, taken without a coast,
/// to a province taken without a coast.
#[verifier::rlimit(100)]
proof fn lemma_with_land_borders_1_at_spain(
    s: Seq<(RegionName, RegionName, Terrain)>,
    i: int,
    p: Seq<char>,
)
    requires
        s.len() <= i < s.len() + 17,
        border_connects(with_land_borders_1(s)[i], ("spa"@, None), (p, None)),
    ensures
        p == "por"@,
        with_land_borders_1(s)[i].2 == Terrain::Land,
{
    reveal_strlit("pie");
    reveal_strlit("por");
    reveal_strlit("pru");
    reveal_strlit("rom");
    reveal_strlit("rum");
    reveal_strlit("ser");
    reveal_strlit("sev");
    reveal_strlit("sil");
    reveal_strlit("spa");
    reveal_strlit("tri");
    reveal_strlit("tus");
    reveal_strlit("tyr");
    reveal_strlit("ukr");
    reveal_strlit("ven");
    reveal_strlit("vie");
    reveal_strlit("wal");
    reveal_strlit("war");
    reveal_strlit("yor");
    assert("pie"@[0] != "spa"@[0]);
    assert("por"@[0] != "spa"@[0]);
    assert("pru"@[0] != "spa"@[0]);
    assert("rom"@[0] != "spa"@[0]);
    assert("rum"@[0] != "spa"@[0]);
    assert("ser"@[1] != "spa"@[1]);
    assert("sev"@[1] != "spa"@[1]);
    assert("sil"@[1] != "spa"@[1]);
    assert("tri"@[0] != "spa"@[0]);
    assert("tus"@[0] != "spa"@[0]);
    assert("tyr"@[0] != "spa"@[0]);
    assert("ukr"@[0] != "spa"@[0]);
    assert("ven"@[0] != "spa"@[0]);
    assert("vie"@[0] != "spa"@[0]);
    assert("wal"@[0] != "spa"@[0]);
    assert("war"@[0] != "spa"@[0]);
    assert("yor"@[0] != "spa"@[0]);
    let r: Seq<(RegionName, RegionName, Terrain)> = with_land_borders_1(s);
    assert(r[s.len() + 0int] == (("pie"@, None::<Coast>), ("ven"@, None::<Coast>), Terrain::Land));
    assert(r[s.len() + 1int] == (("por"@, None::<Coast>), ("spa"@, None::<Coast>), Terrain::Land));
    assert(r[s.len() + 2int] == (("pru"@, None::<Coast>), ("sil"@, None::<Coast>), Terrain::Land));
    assert(r[s.len() + 3int] == (("pru"@, None::<Coast>), ("war"@, None::<Coast>), Terrain::Land));
    assert(r[s.len() + 4int] == (("rom"@, None::<Coast>), ("ven"@, None::<Coast>), Terrain::Land));
    assert(r[s.len() + 5int] == (("rum"@, None::<Coast>), ("ser"@, None::<Coast>), Terrain::Land));
    assert(r[s.len() + 6int] == (("rum"@, None::<Coast>), ("ukr"@, None::<Coast>), Terrain::Land));
    assert(r[s.len() + 7int] == (("ser"@, None::<Coast>), ("tri"@, None::<Coast>), Terrain::Land));
    assert(r[s.len() + 8int] == (("sev"@, None::<Coast>), ("ukr"@, None::<Coast>), Terrain::Land));
    assert(r[s.len() + 9int] == (("sil"@, None::<Coast>), ("war"@, None::<Coast>), Terrain::Land));
    assert(r[s.len() + 10int] == (("tri"@, None::<Coast>), ("tyr"@, None::<Coast>), Terrain::Land));
    assert(r[s.len() + 11int] == (("tri"@, None::<Coast>), ("vie"@, None::<Coast>), Terrain::Land));
    assert(r[s.len() + 12int] == (("tus"@, None::<Coast>), ("ven"@, None::<Coast>), Terrain::Land));
    assert(r[s.len() + 13int] == (("tyr"@, None::<Coast>), ("ven"@, None::<Coast>), Terrain::Land));
    assert(r[s.len() + 14int] == (("tyr"@, None::<Coast>), ("vie"@, None::<Coast>), Terrain::Land));
    assert(r[s.len() + 15int] == (("ukr"@, None::<Coast>), ("war"@, None::<Coast>), Terrain::Land));
    assert(r[s.len() + 16int] == (("wal"@, None::<Coast>), ("yor"@, None::<Coast>), Terrain::Land));
    let k: int = i - s.len();
    assert(
        k == 0 || k == 1 || k == 2 || k == 3 || k == 4 || k == 5 || k == 6 || k == 7 || k == 8 || k == 9
            || k == 10 || k == 11 || k == 12 || k == 13 || k == 14 || k == 15 || k == 16
    );
}

/// On the standard map an army in Spain can cross into Gascony, Marseilles and Portugal and
/// nowhere else, and every border that joins Gascony and Spain is one an army can cross.
#[verifier::rlimit(60)]
pub proof fn lemma_standard_spain_by_land(m: MapView)
    requires
        m.borders == standard_borders(),
    ensures
        forall|p: Seq<char>|
            army_border(m, "spa"@, p) <==> (p == "gas"@ || p == "mar"@ || p == "por"@),
        first_border_between(m, ("gas"@, None), ("spa"@, None)) is Some,
        forall|i: int|
            0 <= i < m.borders.len() && border_connects(m.borders[i], ("gas"@, None), ("spa"@, None))
                ==> spec_can_occupy(UnitType::Army, m.borders[i].2),
{
    let e: Seq<(RegionName, RegionName, Terrain)> = Seq::empty();
    let s0 = with_sea_borders_0(e);
    let s1 = with_sea_borders_1(s0);
    let c = with_coast_borders(s1);
    let l0 = with_land_borders_0(c);
    lemma_with_sea_borders_0_prefix(e);
    lemma_with_sea_borders_1_prefix(s0);
    lemma_with_coast_borders_prefix(s1);
    lemma_with_land_borders_0_prefix(c);
    lemma_with_land_borders_1_prefix(l0);
    reveal_strlit("gas");
    reveal_strlit("mar");
    reveal_strlit("por");
    assert("gas"@[0] != "por"@[0]);
    assert("mar"@[0] != "por"@[0]);
    assert("gas"@[0] != "mar"@[0]);
    assert(l0[c.len() + 40int] == (("gas"@, None::<Coast>), ("spa"@, None::<Coast>), Terrain::Land));
    assert(l0[c.len() + 49int] == (("mar"@, None::<Coast>), ("spa"@, None::<Coast>), Terrain::Land));
    assert(m.borders[l0.len() + 1int] == (("por"@, None::<Coast>), ("spa"@, None::<Coast>), Terrain::Land));
    assert(m.borders[181] == l0[181]);
    assert(m.borders[190] == l0[190]);
    assert(border_connects(m.borders[181], ("spa"@, None), ("gas"@, None)));
    assert(border_connects(m.borders[190], ("spa"@, None), ("mar"@, None)));
    assert(border_connects(m.borders[202], ("spa"@, None), ("por"@, None)));
    assert(border_connects(m.borders[181], ("gas"@, None), ("spa"@, None)));
    assert forall|i: int, p: Seq<char>|
        0 <= i < m.borders.len() && #[trigger] border_connects(m.borders[i], ("spa"@, None), (p, None))
        implies (p == "gas"@ || p == "mar"@ || p == "por"@)
            && spec_can_occupy(UnitType::Army, m.borders[i].2)
    by {
        if i < 60 {
            assert(m.borders[i] == s0[i]);
            lemma_with_sea_borders_0_at_spain(e, i, p);
        } else if i < 107 {
            assert(m.borders[i] == s1[i]);
            lemma_with_sea_borders_1_at_spain(s0, i, p);
        } else if i < 141 {
            assert(m.borders[i] == c[i]);
            lemma_with_coast_borders_at_spain(s1, i, p);
        } else if i < 201 {
            assert(m.borders[i] == l0[i]);
            lemma_with_land_borders_0_at_spain(c, i, p);
        } else {
            lemma_with_land_borders_1_at_spain(l0, i, p);
        }
    }
    assert forall|i: int|
        0 <= i < m.borders.len() && border_connects(m.borders[i], ("gas"@, None), ("spa"@, None))
        implies spec_can_occupy(UnitType::Army, m.borders[i].2)
    by {
        assert(border_connects(m.borders[i], ("spa"@, None), ("gas"@, None)));
    }
}

fn add_province(m: &mut WorldMap, name: &str, sc: SupplyCenter)
    ensures
        final(m)@.provinces == old(m)@.provinces.push((name@, sc@)),
        final(m)@.regions == old(m)@.regions,
        final(m)@.borders == old(m)@.borders,
{
    m.add_province(Province::new(ProvinceKey::new(name), sc));
}

fn add_home(m: &mut WorldMap, name: &str, nation: &str)
    ensures
        final(m)@.provinces == old(m)@.provinces.push((name@, SupplyCenterView::Home(nation@))),
        final(m)@.regions == old(m)@.regions,
        final(m)@.borders == old(m)@.borders,
{
    add_province(m, name, SupplyCenter::Home(Nation::from(nation)));
}

fn add_region(m: &mut WorldMap, name: &str, coast: Option<Coast>, terrain: Terrain)
    ensures
        final(m)@.provinces == old(m)@.provinces,
        final(m)@.regions == old(m)@.regions.push((name@, coast, terrain)),
        final(m)@.borders == old(m)@.borders,
{
    m.add_region(Region::new(ProvinceKey::new(name), coast, terrain));
}

fn add_border(
    m: &mut WorldMap,
    a: &str,
    ac: Option<Coast>,
    b: &str,
    bc: Option<Coast>,
    terrain: Terrain,
)
    ensures
        final(m)@.provinces == old(m)@.provinces,
        final(m)@.regions == old(m)@.regions,
        final(m)@.borders == old(m)@.borders.push(((a@, ac), (b@, bc), terrain)),
{
    m.add_border(
        Border::new(
            RegionKey::new(ProvinceKey::new(a), ac),
            RegionKey::new(ProvinceKey::new(b), bc),
            terrain,
        ),
    );
}

fn add_provinces(m: &mut WorldMap)
    ensures
        final(m)@.provinces == with_standard_provinces(old(m)@.provinces),
        final(m)@.provinces.len() == old(m)@.provinces.len() + 75,
        final(m)@.regions == old(m)@.regions,
        final(m)@.borders == old(m)@.borders,
{
    add_province(m, "adr", SupplyCenter::Absent);
    add_province(m, "aeg", SupplyCenter::Absent);
    add_province(m, "alb", SupplyCenter::Absent);
    add_home(m, "ank", "TUR");
    add_province(m, "apu", SupplyCenter::Absent);
    add_province(m, "arm", SupplyCenter::Absent);
    add_province(m, "bal", SupplyCenter::Absent);
    add_province(m, "bar", SupplyCenter::Absent);
    add_province(m, "bel", SupplyCenter::Neutral);
    add_home(m, "ber", "GER");
    add_province(m, "bla", SupplyCenter::Absent);
    add_province(m, "boh", SupplyCenter::Absent);
    add_province(m, "bot", SupplyCenter::Absent);
    add_home(m, "bre", "FRA");
    add_home(m, "bud", "AUS");
    add_province(m, "bul", SupplyCenter::Neutral);
    add_province(m, "bur", SupplyCenter::Absent);
    add_province(m, "cly", SupplyCenter::Absent);
    add_home(m, "con", "TUR");
    add_province(m, "den", SupplyCenter::Neutral);
    add_province(m, "eas", SupplyCenter::Absent);
    add_home(m, "edi", "ENG");
    add_province(m, "eng", SupplyCenter::Absent);
    add_province(m, "fin", SupplyCenter::Absent);
    add_province(m, "gal", SupplyCenter::Absent);
    add_province(m, "gas", SupplyCenter::Absent);
    add_province(m, "gre", SupplyCenter::Neutral);
    add_province(m, "hel", SupplyCenter::Absent);
    add_province(m, "hol", SupplyCenter::Neutral);
    add_province(m, "ion", SupplyCenter::Absent);
    add_province(m, "iri", SupplyCenter::Absent);
    add_home(m, "kie", "GER");
    add_home(m, "lon", "ENG");
    add_province(m, "lvn", SupplyCenter::Absent);
    add_home(m, "lvp", "ENG");
    add_province(m, "lyo", SupplyCenter::Absent);
    add_province(m, "mao", SupplyCenter::Absent);
    add_home(m, "mar", "FRA");
    add_home(m, "mos", "RUS");
    add_home(m, "mun", "GER");
    add_province(m, "naf", SupplyCenter::Absent);
    add_province(m, "nao", SupplyCenter::Absent);
    add_home(m, "nap", "ITA");
    add_province(m, "nth", SupplyCenter::Absent);
    add_province(m, "nwg", SupplyCenter::Absent);
    add_province(m, "nwy", SupplyCenter::Neutral);
    add_home(m, "par", "FRA");
    add_province(m, "pic", SupplyCenter::Absent);
    add_province(m, "pie", SupplyCenter::Absent);
    add_province(m, "por", SupplyCenter::Neutral);
    add_province(m, "pru", SupplyCenter::Absent);
    add_home(m, "rom", "ITA");
    add_province(m, "ruh", SupplyCenter::Absent);
    add_province(m, "rum", SupplyCenter::Neutral);
    add_province(m, "ser", SupplyCenter::Neutral);
    add_home(m, "sev", "RUS");
    add_province(m, "sil", SupplyCenter::Absent);
    add_province(m, "ska", SupplyCenter::Absent);
    add_home(m, "smy", "TUR");
    add_province(m, "spa", SupplyCenter::Neutral);
    add_home(m, "stp", "RUS");
    add_province(m, "swe", SupplyCenter::Neutral);
    add_province(m, "syr", SupplyCenter::Absent);
    add_home(m, "tri", "AUS");
    add_province(m, "tun", SupplyCenter::Neutral);
    add_province(m, "tus", SupplyCenter::Absent);
    add_province(m, "tyr", SupplyCenter::Absent);
    add_province(m, "tys", SupplyCenter::Absent);
    add_province(m, "ukr", SupplyCenter::Absent);
    add_home(m, "ven", "ITA");
    add_home(m, "vie", "AUS");
    add_province(m, "wal", SupplyCenter::Absent);
    add_home(m, "war", "RUS");
    add_province(m, "wes", SupplyCenter::Absent);
    add_province(m, "yor", SupplyCenter::Absent);
}

fn add_regions(m: &mut WorldMap)
    ensures
        final(m)@.provinces == old(m)@.provinces,
        final(m)@.regions == with_standard_regions(old(m)@.regions),
        final(m)@.regions.len() == old(m)@.regions.len() + 81,
        final(m)@.borders == old(m)@.borders,
{
    add_region(m, "adr", None, Terrain::Sea);
    add_region(m, "aeg", None, Terrain::Sea);
    add_region(m, "alb", None, Terrain::Coast);
    add_region(m, "ank", None, Terrain::Coast);
    add_region(m, "apu", None, Terrain::Coast);
    add_region(m, "arm", None, Terrain::Coast);
    add_region(m, "bal", None, Terrain::Sea);
    add_region(m, "bar", None, Terrain::Sea);
    add_region(m, "bel", None, Terrain::Coast);
    add_region(m, "ber", None, Terrain::Coast);
    add_region(m, "bla", None, Terrain::Sea);
    add_region(m, "boh", None, Terrain::Land);
    add_region(m, "bot", None, Terrain::Sea);
    add_region(m, "bre", None, Terrain::Coast);
    add_region(m, "bud", None, Terrain::Land);
    add_region(m, "bul", None, Terrain::Land);
    add_region(m, "bul", Some(Coast::East), Terrain::Sea);
    add_region(m, "bul", Some(Coast::South), Terrain::Sea);
    add_region(m, "bur", None, Terrain::Land);
    add_region(m, "cly", None, Terrain::Coast);
    add_region(m, "con", None, Terrain::Coast);
    add_region(m, "den", None, Terrain::Coast);
    add_region(m, "eas", None, Terrain::Sea);
    add_region(m, "edi", None, Terrain::Coast);
    add_region(m, "eng", None, Terrain::Sea);
    add_region(m, "fin", None, Terrain::Coast);
    add_region(m, "gal", None, Terrain::Land);
    add_region(m, "gas", None, Terrain::Coast);
    add_region(m, "gre", None, Terrain::Coast);
    add_region(m, "hel", None, Terrain::Sea);
    add_region(m, "hol", None, Terrain::Coast);
    add_region(m, "ion", None, Terrain::Sea);
    add_region(m, "iri", None, Terrain::Sea);
    add_region(m, "kie", None, Terrain::Coast);
    add_region(m, "lon", None, Terrain::Coast);
    add_region(m, "lvn", None, Terrain::Coast);
    add_region(m, "lvp", None, Terrain::Coast);
    add_region(m, "lyo", None, Terrain::Sea);
    add_region(m, "mao", None, Terrain::Sea);
    add_region(m, "mar", None, Terrain::Coast);
    add_region(m, "mos", None, Terrain::Land);
    add_region(m, "mun", None, Terrain::Land);
    add_region(m, "naf", None, Terrain::Coast);
    add_region(m, "nao", None, Terrain::Sea);
    add_region(m, "nap", None, Terrain::Coast);
    add_region(m, "nth", None, Terrain::Sea);
    add_region(m, "nwg", None, Terrain::Sea);
    add_region(m, "nwy", None, Terrain::Coast);
    add_region(m, "par", None, Terrain::Land);
    add_region(m, "pic", None, Terrain::Coast);
    add_region(m, "pie", None, Terrain::Coast);
    add_region(m, "por", None, Terrain::Coast);
    add_region(m, "pru", None, Terrain::Coast);
    add_region(m, "rom", None, Terrain::Coast);
    add_region(m, "ruh", None, Terrain::Land);
    add_region(m, "rum", None, Terrain::Coast);
    add_region(m, "ser", None, Terrain::Land);
    add_region(m, "sev", None, Terrain::Coast);
    add_region(m, "sil", None, Terrain::Land);
    add_region(m, "ska", None, Terrain::Sea);
    add_region(m, "smy", None, Terrain::Coast);
    add_region(m, "spa", None, Terrain::Land);
    add_region(m, "spa", Some(Coast::North), Terrain::Sea);
    add_region(m, "spa", Some(Coast::South), Terrain::Sea);
    add_region(m, "stp", None, Terrain::Land);
    add_region(m, "stp", Some(Coast::North), Terrain::Sea);
    add_region(m, "stp", Some(Coast::South), Terrain::Sea);
    add_region(m, "swe", None, Terrain::Coast);
    add_region(m, "syr", None, Terrain::Coast);
    add_region(m, "tri", None, Terrain::Coast);
    add_region(m, "tun", None, Terrain::Coast);
    add_region(m, "tus", None, Terrain::Coast);
    add_region(m, "tyr", None, Terrain::Land);
    add_region(m, "tys", None, Terrain::Sea);
    add_region(m, "ukr", None, Terrain::Land);
    add_region(m, "ven", None, Terrain::Coast);
    add_region(m, "vie", None, Terrain::Land);
    add_region(m, "wal", None, Terrain::Coast);
    add_region(m, "war", None, Terrain::Land);
    add_region(m, "wes", None, Terrain::Sea);
    add_region(m, "yor", None, Terrain::Coast);
}

fn add_sea_borders_0(m: &mut WorldMap)
    ensures
        final(m)@.provinces == old(m)@.provinces,
        final(m)@.regions == old(m)@.regions,
        final(m)@.borders == with_sea_borders_0(old(m)@.borders),
        final(m)@.borders.len() == old(m)@.borders.len() + 60,
{
    add_border(m, "adr", None, "ion", None, Terrain::Sea);
    add_border(m, "aeg", None, "eas", None, Terrain::Sea);
    add_border(m, "aeg", None, "ion", None, Terrain::Sea);
    add_border(m, "bal", None, "bot", None, Terrain::Sea);
    add_border(m, "bar", None, "nwg", None, Terrain::Sea);
    add_border(m, "eas", None, "ion", None, Terrain::Sea);
    add_border(m, "eng", None, "iri", None, Terrain::Sea);
    add_border(m, "eng", None, "mao", None, Terrain::Sea);
    add_border(m, "eng", None, "nth", None, Terrain::Sea);
    add_border(m, "hel", None, "nth", None, Terrain::Sea);
    add_border(m, "ion", None, "tys", None, Terrain::Sea);
    add_border(m, "iri", None, "mao", None, Terrain::Sea);
    add_border(m, "iri", None, "nao", None, Terrain::Sea);
    add_border(m, "lyo", None, "tys", None, Terrain::Sea);
    add_border(m, "lyo", None, "wes", None, Terrain::Sea);
    add_border(m, "mao", None, "nao", None, Terrain::Sea);
    add_border(m, "mao", None, "wes", None, Terrain::Sea);
    add_border(m, "nao", None, "nwg", None, Terrain::Sea);
    add_border(m, "nth", None, "nwg", None, Terrain::Sea);
    add_border(m, "nth", None, "ska", None, Terrain::Sea);
    add_border(m, "tys", None, "wes", None, Terrain::Sea);
    add_border(m, "adr", None, "alb", None, Terrain::Sea);
    add_border(m, "adr", None, "apu", None, Terrain::Sea);
    add_border(m, "adr", None, "tri", None, Terrain::Sea);
    add_border(m, "adr", None, "ven", None, Terrain::Sea);
    add_border(m, "aeg", None, "bul", Some(Coast::South), Terrain::Sea);
    add_border(m, "aeg", None, "con", None, Terrain::Sea);
    add_border(m, "aeg", None, "gre", None, Terrain::Sea);
    add_border(m, "aeg", None, "smy", None, Terrain::Sea);
    add_border(m, "bal", None, "ber", None, Terrain::Sea);
    add_border(m, "bal", None, "den", None, Terrain::Sea);
    add_border(m, "bal", None, "kie", None, Terrain::Sea);
    add_border(m, "bal", None, "lvn", None, Terrain::Sea);
    add_border(m, "bal", None, "pru", None, Terrain::Sea);
    add_border(m, "bal", None, "swe", None, Terrain::Sea);
    add_border(m, "bar", None, "nwy", None, Terrain::Sea);
    add_border(m, "bar", None, "stp", Some(Coast::North), Terrain::Sea);
    add_border(m, "bla", None, "ank", None, Terrain::Sea);
    add_border(m, "bla", None, "arm", None, Terrain::Sea);
    add_border(m, "bla", None, "bul", Some(Coast::East), Terrain::Sea);
    add_border(m, "bla", None, "con", None, Terrain::Sea);
    add_border(m, "bla", None, "rum", None, Terrain::Sea);
    add_border(m, "bla", None, "sev", None, Terrain::Sea);
    add_border(m, "bot", None, "fin", None, Terrain::Sea);
    add_border(m, "bot", None, "lvn", None, Terrain::Sea);
    add_border(m, "bot", None, "stp", Some(Coast::South), Terrain::Sea);
    add_border(m, "bot", None, "swe", None, Terrain::Sea);
    add_border(m, "eas", None, "smy", None, Terrain::Sea);
    add_border(m, "eas", None, "syr", None, Terrain::Sea);
    add_border(m, "eng", None, "bel", None, Terrain::Sea);
    add_border(m, "eng", None, "bre", None, Terrain::Sea);
    add_border(m, "eng", None, "lon", None, Terrain::Sea);
    add_border(m, "eng", None, "pic", None, Terrain::Sea);
    add_border(m, "eng", None, "wal", None, Terrain::Sea);
    add_border(m, "hel", None, "den", None, Terrain::Sea);
    add_border(m, "hel", None, "hol", None, Terrain::Sea);
    add_border(m, "hel", None, "kie", None, Terrain::Sea);
    add_border(m, "ion", None, "alb", None, Terrain::Sea);
    add_border(m, "ion", None, "apu", None, Terrain::Sea);
    add_border(m, "ion", None, "gre", None, Terrain::Sea);
}

fn add_sea_borders_1(m: &mut WorldMap)
    ensures
        final(m)@.provinces == old(m)@.provinces,
        final(m)@.regions == old(m)@.regions,
        final(m)@.borders == with_sea_borders_1(old(m)@.borders),
        final(m)@.borders.len() == old(m)@.borders.len() + 47,
{
    add_border(m, "ion", None, "nap", None, Terrain::Sea);
    add_border(m, "ion", None, "tun", None, Terrain::Sea);
    add_border(m, "iri", None, "lvp", None, Terrain::Sea);
    add_border(m, "iri", None, "wal", None, Terrain::Sea);
    add_border(m, "lyo", None, "mar", None, Terrain::Sea);
    add_border(m, "lyo", None, "pie", None, Terrain::Sea);
    add_border(m, "lyo", None, "spa", Some(Coast::South), Terrain::Sea);
    add_border(m, "lyo", None, "tus", None, Terrain::Sea);
    add_border(m, "mao", None, "bre", None, Terrain::Sea);
    add_border(m, "mao", None, "gas", None, Terrain::Sea);
    add_border(m, "mao", None, "naf", None, Terrain::Sea);
    add_border(m, "mao", None, "por", None, Terrain::Sea);
    add_border(m, "mao", None, "spa", Some(Coast::North), Terrain::Sea);
    add_border(m, "mao", None, "spa", Some(Coast::South), Terrain::Sea);
    add_border(m, "nao", None, "cly", None, Terrain::Sea);
    add_border(m, "nao", None, "lvp", None, Terrain::Sea);
    add_border(m, "nth", None, "bel", None, Terrain::Sea);
    add_border(m, "nth", None, "den", None, Terrain::Sea);
    add_border(m, "nth", None, "edi", None, Terrain::Sea);
    add_border(m, "nth", None, "hol", None, Terrain::Sea);
    add_border(m, "nth", None, "lon", None, Terrain::Sea);
    add_border(m, "nth", None, "nwy", None, Terrain::Sea);
    add_border(m, "nth", None, "yor", None, Terrain::Sea);
    add_border(m, "nwg", None, "cly", None, Terrain::Sea);
    add_border(m, "nwg", None, "edi", None, Terrain::Sea);
    add_border(m, "nwg", None, "nwy", None, Terrain::Sea);
    add_border(m, "ska", None, "den", None, Terrain::Sea);
    add_border(m, "ska", None, "nwy", None, Terrain::Sea);
    add_border(m, "ska", None, "swe", None, Terrain::Sea);
    add_border(m, "tys", None, "nap", None, Terrain::Sea);
    add_border(m, "tys", None, "rom", None, Terrain::Sea);
    add_border(m, "tys", None, "tun", None, Terrain::Sea);
    add_border(m, "tys", None, "tus", None, Terrain::Sea);
    add_border(m, "wes", None, "naf", None, Terrain::Sea);
    add_border(m, "wes", None, "spa", Some(Coast::South), Terrain::Sea);
    add_border(m, "wes", None, "tun", None, Terrain::Sea);
    add_border(m, "bul", Some(Coast::East), "con", None, Terrain::Sea);
    add_border(m, "bul", Some(Coast::East), "rum", None, Terrain::Sea);
    add_border(m, "bul", Some(Coast::South), "con", None, Terrain::Sea);
    add_border(m, "bul", Some(Coast::South), "gre", None, Terrain::Sea);
    add_border(m, "spa", Some(Coast::North), "gas", None, Terrain::Sea);
    add_border(m, "spa", Some(Coast::North), "por", None, Terrain::Sea);
    add_border(m, "spa", Some(Coast::South), "mar", None, Terrain::Sea);
    add_border(m, "spa", Some(Coast::South), "por", None, Terrain::Sea);
    add_border(m, "stp", Some(Coast::North), "nwy", None, Terrain::Sea);
    add_border(m, "stp", Some(Coast::South), "fin", None, Terrain::Sea);
    add_border(m, "stp", Some(Coast::South), "lvn", None, Terrain::Sea);
}

fn add_coast_borders_0(m: &mut WorldMap)
    ensures
        final(m)@.provinces == old(m)@.provinces,
        final(m)@.regions == old(m)@.regions,
        final(m)@.borders == with_coast_borders(old(m)@.borders),
        final(m)@.borders.len() == old(m)@.borders.len() + 34,
{
    add_border(m, "alb", None, "gre", None, Terrain::Coast);
    add_border(m, "alb", None, "tri", None, Terrain::Coast);
    add_border(m, "ank", None, "arm", None, Terrain::Coast);
    add_border(m, "ank", None, "con", None, Terrain::Coast);
    add_border(m, "apu", None, "nap", None, Terrain::Coast);
    add_border(m, "apu", None, "ven", None, Terrain::Coast);
    add_border(m, "arm", None, "sev", None, Terrain::Coast);
    add_border(m, "bel", None, "hol", None, Terrain::Coast);
    add_border(m, "bel", None, "pic", None, Terrain::Coast);
    add_border(m, "ber", None, "kie", None, Terrain::Coast);
    add_border(m, "ber", None, "pru", None, Terrain::Coast);
    add_border(m, "bre", None, "gas", None, Terrain::Coast);
    add_border(m, "bre", None, "pic", None, Terrain::Coast);
    add_border(m, "cly", None, "edi", None, Terrain::Coast);
    add_border(m, "cly", None, "lvp", None, Terrain::Coast);
    add_border(m, "con", None, "smy", None, Terrain::Coast);
    add_border(m, "den", None, "kie", None, Terrain::Coast);
    add_border(m, "den", None, "swe", None, Terrain::Coast);
    add_border(m, "edi", None, "yor", None, Terrain::Coast);
    add_border(m, "fin", None, "swe", None, Terrain::Coast);
    add_border(m, "hol", None, "kie", None, Terrain::Coast);
    add_border(m, "lon", None, "wal", None, Terrain::Coast);
    add_border(m, "lon", None, "yor", None, Terrain::Coast);
    add_border(m, "lvn", None, "pru", None, Terrain::Coast);
    add_border(m, "lvp", None, "wal", None, Terrain::Coast);
    add_border(m, "mar", None, "pie", None, Terrain::Coast);
    add_border(m, "naf", None, "tun", None, Terrain::Coast);
    add_border(m, "nap", None, "rom", None, Terrain::Coast);
    add_border(m, "nwy", None, "swe", None, Terrain::Coast);
    add_border(m, "pie", None, "tus", None, Terrain::Coast);
    add_border(m, "rom", None, "tus", None, Terrain::Coast);
    add_border(m, "rum", None, "sev", None, Terrain::Coast);
    add_border(m, "smy", None, "syr", None, Terrain::Coast);
    add_border(m, "tri", None, "ven", None, Terrain::Coast);
}

fn add_land_borders_0(m: &mut WorldMap)
    ensures
        final(m)@.provinces == old(m)@.provinces,
        final(m)@.regions == old(m)@.regions,
        final(m)@.borders == with_land_borders_0(old(m)@.borders),
        final(m)@.borders.len() == old(m)@.borders.len() + 60,
{
    add_border(m, "alb", None, "ser", None, Terrain::Land);
    add_border(m, "ank", None, "smy", None, Terrain::Land);
    add_border(m, "apu", None, "rom", None, Terrain::Land);
    add_border(m, "arm", None, "smy", None, Terrain::Land);
    add_border(m, "arm", None, "syr", None, Terrain::Land);
    add_border(m, "bel", None, "bur", None, Terrain::Land);
    add_border(m, "bel", None, "ruh", None, Terrain::Land);
    add_border(m, "ber", None, "mun", None, Terrain::Land);
    add_border(m, "ber", None, "sil", None, Terrain::Land);
    add_border(m, "boh", None, "gal", None, Terrain::Land);
    add_border(m, "boh", None, "mun", None, Terrain::Land);
    add_border(m, "boh", None, "sil", None, Terrain::Land);
    add_border(m, "boh", None, "tyr", None, Terrain::Land);
    add_border(m, "boh", None, "vie", None, Terrain::Land);
    add_border(m, "bre", None, "par", None, Terrain::Land);
    add_border(m, "bud", None, "gal", None, Terrain::Land);
    add_border(m, "bud", None, "rum", None, Terrain::Land);
    add_border(m, "bud", None, "ser", None, Terrain::Land);
    add_border(m, "bud", None, "tri", None, Terrain::Land);
    add_border(m, "bud", None, "vie", None, Terrain::Land);
    add_border(m, "bul", None, "con", None, Terrain::Land);
    add_border(m, "bul", None, "gre", None, Terrain::Land);
    add_border(m, "bul", None, "rum", None, Terrain::Land);
    add_border(m, "bul", None, "ser", None, Terrain::Land);
    add_border(m, "bur", None, "gas", None, Terrain::Land);
    add_border(m, "bur", None, "mar", None, Terrain::Land);
    add_border(m, "bur", None, "mun", None, Terrain::Land);
    add_border(m, "bur", None, "par", None, Terrain::Land);
    add_border(m, "bur", None, "pic", None, Terrain::Land);
    add_border(m, "bur", None, "ruh", None, Terrain::Land);
    add_border(m, "edi", None, "lvp", None, Terrain::Land);
    add_border(m, "fin", None, "nwy", None, Terrain::Land);
    add_border(m, "fin", None, "stp", None, Terrain::Land);
    add_border(m, "gal", None, "rum", None, Terrain::Land);
    add_border(m, "gal", None, "sil", None, Terrain::Land);
    add_border(m, "gal", None, "ukr", None, Terrain::Land);
    add_border(m, "gal", None, "vie", None, Terrain::Land);
    add_border(m, "gal", None, "war", None, Terrain::Land);
    add_border(m, "gas", None, "mar", None, Terrain::Land);
    add_border(m, "gas", None, "par", None, Terrain::Land);
    add_border(m, "gas", None, "spa", None, Terrain::Land);
    add_border(m, "gre", None, "ser", None, Terrain::Land);
    add_border(m, "hol", None, "ruh", None, Terrain::Land);
    add_border(m, "kie", None, "mun", None, Terrain::Land);
    add_border(m, "kie", None, "ruh", None, Terrain::Land);
    add_border(m, "lvn", None, "mos", None, Terrain::Land);
    add_border(m, "lvn", None, "stp", None, Terrain::Land);
    add_border(m, "lvn", None, "war", None, Terrain::Land);
    add_border(m, "lvp", None, "yor", None, Terrain::Land);
    add_border(m, "mar", None, "spa", None, Terrain::Land);
    add_border(m, "mos", None, "sev", None, Terrain::Land);
    add_border(m, "mos", None, "stp", None, Terrain::Land);
    add_border(m, "mos", None, "ukr", None, Terrain::Land);
    add_border(m, "mos", None, "war", None, Terrain::Land);
    add_border(m, "mun", None, "ruh", None, Terrain::Land);
    add_border(m, "mun", None, "sil", None, Terrain::Land);
    add_border(m, "mun", None, "tyr", None, Terrain::Land);
    add_border(m, "nwy", None, "stp", None, Terrain::Land);
    add_border(m, "par", None, "pic", None, Terrain::Land);
    add_border(m, "pie", None, "tyr", None, Terrain::Land);
}

fn add_land_borders_1(m: &mut WorldMap)
    ensures
        final(m)@.provinces == old(m)@.provinces,
        final(m)@.regions == old(m)@.regions,
        final(m)@.borders == with_land_borders_1(old(m)@.borders),
        final(m)@.borders.len() == old(m)@.borders.len() + 17,
{
    add_border(m, "pie", None, "ven", None, Terrain::Land);
    add_border(m, "por", None, "spa", None, Terrain::Land);
    add_border(m, "pru", None, "sil", None, Terrain::Land);
    add_border(m, "pru", None, "war", None, Terrain::Land);
    add_border(m, "rom", None, "ven", None, Terrain::Land);
    add_border(m, "rum", None, "ser", None, Terrain::Land);
    add_border(m, "rum", None, "ukr", None, Terrain::Land);
    add_border(m, "ser", None, "tri", None, Terrain::Land);
    add_border(m, "sev", None, "ukr", None, Terrain::Land);
    add_border(m, "sil", None, "war", None, Terrain::Land);
    add_border(m, "tri", None, "tyr", None, Terrain::Land);
    add_border(m, "tri", None, "vie", None, Terrain::Land);
    add_border(m, "tus", None, "ven", None, Terrain::Land);
    add_border(m, "tyr", None, "ven", None, Terrain::Land);
    add_border(m, "tyr", None, "vie", None, Terrain::Land);
    add_border(m, "ukr", None, "war", None, Terrain::Land);
    add_border(m, "wal", None, "yor", None, Terrain::Land);
}

/// The standard map of the game: 75 provinces, of which 34 hold supply centers, with the
/// regions of the three provinces that have two coasts, and the borders between regions.
pub fn standard_map() -> (m: WorldMap)
    ensures
        m@.provinces.len() == 75,
        m@.regions.len() == 81,
        m@.borders.len() == 218,
        m@.provinces == standard_provinces(),
        m@.regions == standard_regions(),
        m@.borders == standard_borders(),
{
    let mut m = WorldMap::new();
    proof {
        assert(m@.provinces =~= Seq::empty());
        assert(m@.regions =~= Seq::empty());
        assert(m@.borders =~= Seq::empty());
    }
    add_provinces(&mut m);
    add_regions(&mut m);
    add_sea_borders_0(&mut m);
    add_sea_borders_1(&mut m);
    add_coast_borders_0(&mut m);
    add_land_borders_0(&mut m);
    add_land_borders_1(&mut m);
    m
}

} // verus!
