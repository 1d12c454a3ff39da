use diplomacy::judge::{MappedBuildOrder, MappedMainOrder, MappedRetreatOrder};
use diplomacy::parser::ErrorKind;

fn main_error(s: &str) -> ErrorKind {
    *s.parse::<MappedMainOrder>().unwrap_err().kind()
}

#[test]
fn main_order_error_kinds() {
    assert_eq!(main_error("ENG: F"), ErrorKind::TooFewWords(3));
    assert_eq!(main_error("ENG: F lon"), ErrorKind::TooFewWords(4));
    assert_eq!(main_error("ENG: X lon hold"), ErrorKind::InvalidUnitType);
    assert_eq!(main_error("ENG: F lon dance"), ErrorKind::UnknownCommand);
    assert_eq!(main_error("ENG: F lon hold now"), ErrorKind::UnknownCommand);
    assert_eq!(main_error("ENG: F lon -> nth eng"), ErrorKind::MalformedMove);
    assert_eq!(main_error("ENG: F lon supports F nth ->"), ErrorKind::MalformedSupport);
    assert_eq!(main_error("ENG: F nth convoys lon bel"), ErrorKind::MalformedConvoy);
    assert_eq!(main_error("ENG: F spa(xx) hold"), ErrorKind::BadCoast);
    assert_eq!(main_error("ENG: F spa(nc)(sc) hold"), ErrorKind::MalformedRegion);
}

#[test]
fn retreat_and_build_error_kinds() {
    assert_eq!(
        *"ENG: F lon".parse::<MappedRetreatOrder>().unwrap_err().kind(),
        ErrorKind::TooFewWords(4)
    );
    assert_eq!(
        *"ENG: F lon supports F nth".parse::<MappedRetreatOrder>().unwrap_err().kind(),
        ErrorKind::UnknownCommand
    );
    assert_eq!(
        *"ENG: F lon".parse::<MappedBuildOrder>().unwrap_err().kind(),
        ErrorKind::TooFewWords(4)
    );
    assert_eq!(
        *"ENG: F lon destroy".parse::<MappedBuildOrder>().unwrap_err().kind(),
        ErrorKind::UnknownCommand
    );
}

#[test]
fn accepted_spellings() {
    assert!("ENG: F lon holds".parse::<MappedMainOrder>().is_ok());
    assert!("ENG: A lon -> bel VIA CONVOY".parse::<MappedMainOrder>().is_ok());
    assert!("ENG: F nth convoy A lon -> bel".parse::<MappedMainOrder>().is_ok());
    assert!("ENG: F nth support A lon".parse::<MappedMainOrder>().is_ok());
    assert!("ENG: F lon disband".parse::<MappedBuildOrder>().is_ok());
    assert!("ENG: F lon hold".parse::<MappedRetreatOrder>().is_ok());
}
