use ffi_boundary::zip_codes::ZIP_CODES;
use ffi_boundary::ZipCodeDatabase;

#[test]
fn new_store_is_empty() {
    let store = ZipCodeDatabase::new();
    assert_eq!(store.population_of("00042"), 0);
    assert_eq!(store.population_of("00000"), 0);
    assert_eq!(store.population_of(""), 0);
}

#[test]
fn populated_store_answers_for_zip_codes() {
    let mut store = ZipCodeDatabase::new();
    store.populate();
    assert_eq!(store.population_of("00042"), 42);
    assert_eq!(store.population_of("99999"), 99999);
    assert_eq!(store.population_of("00000"), 0);
    assert_eq!(store.population_of("00001"), 1);
    assert_eq!(store.population_of("10000"), 10000);
    assert_eq!(store.population_of("12345"), 12345);
    assert_eq!(store.population_of("90210"), 90210);
}

#[test]
fn populated_store_knows_no_other_key() {
    let mut store = ZipCodeDatabase::new();
    store.populate();
    assert_eq!(store.population_of("not-a-zip"), 0);
    assert_eq!(store.population_of(""), 0);
}

#[test]
fn lookup_matches_the_whole_key() {
    let mut store = ZipCodeDatabase::new();
    store.populate();
    assert_eq!(store.population_of("42"), 0);
    assert_eq!(store.population_of("0004"), 0);
    assert_eq!(store.population_of("000420"), 0);
    assert_eq!(store.population_of(" 00042"), 0);
    assert_eq!(store.population_of("00042 "), 0);
    assert_eq!(store.population_of("0004a"), 0);
    assert_eq!(store.population_of("100000"), 0);
}

#[test]
fn every_zip_code_is_mapped_to_its_number() {
    let mut store = ZipCodeDatabase::new();
    store.populate();
    for n in 0..ZIP_CODES {
        assert_eq!(store.population_of(&format!("{:05}", n)), n);
    }
}

#[test]
fn populating_twice_changes_nothing() {
    let mut store = ZipCodeDatabase::new();
    store.populate();
    store.populate();
    assert_eq!(store.population_of("00042"), 42);
    assert_eq!(store.population_of("99999"), 99999);
    assert_eq!(store.population_of("not-a-zip"), 0);
}

#[test]
fn stores_are_independent() {
    let mut filled = ZipCodeDatabase::new();
    let empty = ZipCodeDatabase::new();
    filled.populate();
    assert_eq!(filled.population_of("54321"), 54321);
    assert_eq!(empty.population_of("54321"), 0);
}

#[test]
fn keys_are_padded_with_zeros_to_five_digits() {
    let mut store = ZipCodeDatabase::new();
    store.populate();
    assert_eq!(store.population_of("00007"), 7);
    assert_eq!(store.population_of("7"), 0);
    assert_eq!(store.population_of("00305"), 305);
    assert_eq!(store.population_of("305"), 0);
    assert_eq!(store.population_of("04096"), 4096);
    assert_eq!(store.population_of("4096"), 0);
    assert_eq!(store.population_of("65535"), 65535);
}

#[test]
fn there_are_one_hundred_thousand_zip_codes() {
    assert_eq!(ZIP_CODES, 100_000);
}
