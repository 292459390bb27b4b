use weight_writer::{join_strings, underscore, weight_file_name};

#[test]
fn weight_file_name_appends_the_extension() {
    assert_eq!(weight_file_name("pallet_balances"), "pallet_balances.rs");
}

#[test]
fn underscore_separates_thousands() {
    assert_eq!(underscore("1000000"), "1_000_000");
    assert_eq!(underscore("1234"), "1_234");
    assert_eq!(underscore("10000"), "10_000");
}

#[test]
fn underscore_leaves_short_strings_alone() {
    assert_eq!(underscore(""), "");
    assert_eq!(underscore("7"), "7");
    assert_eq!(underscore("999"), "999");
}

#[test]
fn join_puts_single_spaces_between_parts() {
    let parts = vec!["--steps".to_string(), "50".to_string(), "--repeat".to_string()];
    assert_eq!(join_strings(&parts), "--steps 50 --repeat");
}

#[test]
fn join_of_none_or_one_adds_no_space() {
    assert_eq!(join_strings(&Vec::new()), "");
    assert_eq!(join_strings(&vec!["alone".to_string()]), "alone");
}
