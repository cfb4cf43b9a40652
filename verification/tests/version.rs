use rellr::libs::version::{
    increment, read_component, read_components, write_number, write_version,
};

#[test]
fn reads_three_components() {
    assert_eq!(read_components("1.2.3"), vec![1, 2, 3]);
}

#[test]
fn reads_multi_digit_components() {
    assert_eq!(read_components("10.200.3000"), vec![10, 200, 3000]);
}

#[test]
fn leaves_out_pieces_that_are_not_numbers() {
    assert_eq!(read_components("1.x.3"), vec![1, 3]);
    assert_eq!(read_components("1..2"), vec![1, 2]);
    assert_eq!(read_components("-1.2"), vec![2]);
    assert_eq!(read_components("1.2."), vec![1, 2]);
    assert_eq!(read_components("v1.2.3"), vec![2, 3]);
    assert_eq!(read_components("1.2.3-rc1"), vec![1, 2]);
}

#[test]
fn reads_nothing_from_an_empty_version() {
    assert_eq!(read_components(""), Vec::<u32>::new());
    assert_eq!(read_components("."), Vec::<u32>::new());
    assert_eq!(read_components("abc"), Vec::<u32>::new());
}

#[test]
fn accepts_a_plus_sign_and_leading_zeros() {
    assert_eq!(read_components("+1.02.003"), vec![1, 2, 3]);
    assert_eq!(read_component("+7"), Some(7));
    assert_eq!(read_component("000000000000000000000007"), Some(7));
}

#[test]
fn a_sign_alone_is_not_a_number() {
    assert_eq!(read_component("+"), None);
    assert_eq!(read_component("-"), None);
    assert_eq!(read_component("++1"), None);
    assert_eq!(read_component("1+"), None);
    assert_eq!(read_component(""), None);
}

#[test]
fn reads_components_as_the_standard_parser_does() {
    let pieces = [
        "0", "1", "+1", "-1", "", "+", "42", "4294967295", "4294967296", "99999999999999999999",
        "0x10", " 1", "1 ", "1_0", "٣",
    ];
    for piece in pieces {
        assert_eq!(read_component(piece), piece.parse::<u32>().ok(), "piece {:?}", piece);
    }
}

#[test]
fn the_greatest_component_is_read() {
    assert_eq!(read_components("4294967295.0.0"), vec![4294967295, 0, 0]);
}

#[test]
fn a_component_beyond_32_bits_is_left_out() {
    assert_eq!(read_components("4294967296.0.0"), vec![0, 0]);
}

#[test]
fn increment_raises_patch() {
    assert_eq!(increment(vec![1, 2, 3], 2), vec![1, 2, 4]);
}

#[test]
fn increment_raises_minor_and_clears_patch() {
    assert_eq!(increment(vec![1, 2, 3], 1), vec![1, 3, 0]);
}

#[test]
fn increment_raises_major_and_clears_the_rest() {
    assert_eq!(increment(vec![1, 2, 3], 0), vec![2, 0, 0]);
}

#[test]
fn increment_leaves_a_short_version_alone() {
    assert_eq!(increment(vec![1, 2], 2), vec![1, 2]);
    assert_eq!(increment(vec![], 0), Vec::<u64>::new());
}

#[test]
fn increment_goes_beyond_32_bits() {
    assert_eq!(increment(vec![4294967295, 7, 7], 0), vec![4294967296, 0, 0]);
}

#[test]
fn writes_numbers_in_decimal() {
    assert_eq!(write_number(0), "0");
    assert_eq!(write_number(9), "9");
    assert_eq!(write_number(10), "10");
    assert_eq!(write_number(1234567890), "1234567890");
    assert_eq!(write_number(4294967296), "4294967296");
    assert_eq!(write_number(u64::MAX), "18446744073709551615");
}

#[test]
fn writes_components_with_dots() {
    assert_eq!(write_version(&vec![]), "");
    assert_eq!(write_version(&vec![7]), "7");
    assert_eq!(write_version(&vec![1, 2, 3]), "1.2.3");
    assert_eq!(write_version(&vec![1, 0, 0, 12]), "1.0.0.12");
}

#[test]
fn written_components_are_read_back() {
    let versions: [[u32; 3]; 4] = [[0, 0, 0], [1, 2, 3], [10, 0, 99], [4294967295, 1, 0]];
    for version in versions {
        let wide: Vec<u64> = version.iter().map(|&n| n as u64).collect();
        assert_eq!(read_components(&write_version(&wide)), version.to_vec());
    }
}
