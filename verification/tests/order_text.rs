use diplomacy::judge::{MappedBuildOrder, MappedMainOrder};

fn roundtrip_main(ord: &str) -> Result<(), String> {
    let parsed: MappedMainOrder = ord.parse().map_err(|e| format!("{:?}", e))?;
    let written = parsed.to_string();
    let reparsed: MappedMainOrder = written.parse().map_err(|e| format!("{:?}", e))?;
    if parsed == reparsed {
        Ok(())
    } else {
        Err(format!("Input: {ord} | Parsed: {parsed:?} | Roundtripped: {reparsed:?} | Written: {written}"))
    }
}

fn roundtrip_build(ord: &str) -> Result<(), String> {
    let parsed: MappedBuildOrder = ord.parse().map_err(|e| format!("{:?}", e))?;
    let written = parsed.to_string();
    let reparsed: MappedBuildOrder = written.parse().map_err(|e| format!("{:?}", e))?;
    if parsed == reparsed {
        Ok(())
    } else {
        Err(format!("Input: {ord} | Parsed: {parsed:?} | Roundtripped: {reparsed:?} | Written: {written}"))
    }
}

#[test]
fn roundtrip_main_orders() {
    let failures: Vec<String> = vec![
        "TUR: F ank hold",
        "TUR: A bul -> con",
        "TUR: A bul -> con via convoy",
        "TUR: F aeg convoys bul -> con",
        "TUR: A rum supports A bul -> con",
        "AUS: A tri -> ser",
        "AUS: A ser -> bul",
        "TUR: A bul -> tri",
        "TUR: F aeg convoys bul -> tri",
        "TUR: F ion convoys bul -> tri",
        "TUR: F adr convoys bul -> tri",
        "ITA: F nap -> ion",
        "ENG: F iri supports F nao -> mao",
        "ENG: F nao -> mao",
        "FRA: F spa(nc) supports F mao",
        "FRA: F mao holds",
        "ITA: F lyo -> spa(sc)",
    ]
    .into_iter()
    .filter_map(|o| roundtrip_main(o).err())
    .collect();
    for f in &failures {
        println!("{}", f);
    }
    assert!(failures.is_empty(), "{} roundtrips failed", failures.len());
}

#[test]
fn roundtrip_build_orders() {
    let failures: Vec<String> = vec![
        "GER: A war build",
        "GER: A ber build",
        "GER: A mun build",
        "RUS: F stp(nc) build",
        "FRA: A par disband",
    ]
    .into_iter()
    .filter_map(|o| roundtrip_build(o).err())
    .collect();
    for f in &failures {
        println!("{}", f);
    }
    assert!(failures.is_empty(), "{} roundtrips failed", failures.len());
}
