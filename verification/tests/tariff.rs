use axum_tariff::TariffTable;
use std::time::Duration;

#[test]
fn empty_table_holds_nothing() {
    let table = TariffTable::new();
    assert_eq!(table.lookup("US"), None);
    assert_eq!(table.lookup(""), None);
    assert_eq!(table.lookup_key("US"), None);
}

#[test]
fn lookup_returns_what_was_entered() {
    let table = TariffTable::new()
        .insert("US", Duration::from_secs(2))
        .insert("CN", Duration::from_millis(500));
    assert_eq!(table.lookup("US"), Some(Duration::from_secs(2)));
    assert_eq!(table.lookup("CN"), Some(Duration::from_millis(500)));
    assert_eq!(table.lookup("FR"), None);
}

#[test]
fn codes_match_in_any_case() {
    let table = TariffTable::new().insert("us", Duration::from_millis(10));
    assert_eq!(table.lookup("US"), Some(Duration::from_millis(10)));
    assert_eq!(table.lookup("Us"), Some(Duration::from_millis(10)));
    assert_eq!(table.lookup("us"), Some(Duration::from_millis(10)));
    assert_eq!(table.lookup_key("US"), Some(Duration::from_millis(10)));
    assert_eq!(table.lookup_key("us"), None);

    let table = TariffTable::new().insert("GB", Duration::from_millis(20));
    assert_eq!(table.lookup("gb"), Some(Duration::from_millis(20)));
}

#[test]
fn last_tariff_for_a_country_wins() {
    let table = TariffTable::new()
        .insert("DE", Duration::from_millis(1))
        .insert("FR", Duration::from_millis(2))
        .insert("de", Duration::from_millis(3));
    assert_eq!(table.lookup("DE"), Some(Duration::from_millis(3)));
    assert_eq!(table.lookup("FR"), Some(Duration::from_millis(2)));
}

#[test]
fn keys_are_taken_as_they_are() {
    let table = TariffTable::new()
        .insert_key("de".to_string(), Duration::from_millis(1))
        .insert_key("DE".to_string(), Duration::from_millis(2));
    assert_eq!(table.lookup_key("de"), Some(Duration::from_millis(1)));
    assert_eq!(table.lookup_key("DE"), Some(Duration::from_millis(2)));
    assert_eq!(table.lookup("de"), Some(Duration::from_millis(2)));
}

#[test]
fn any_string_is_accepted_as_a_code() {
    let table = TariffTable::new()
        .insert("", Duration::ZERO)
        .insert("not a country", Duration::from_nanos(1))
        .insert("stra\u{df}e", Duration::from_secs(1));
    assert_eq!(table.lookup(""), Some(Duration::ZERO));
    assert_eq!(table.lookup("NOT A COUNTRY"), Some(Duration::from_nanos(1)));
    assert_eq!(table.lookup("STRASSE"), Some(Duration::from_secs(1)));
    assert_eq!(table.lookup_key("STRASSE"), Some(Duration::from_secs(1)));
}
