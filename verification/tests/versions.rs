use fdm::error::FdmError;
use fdm::types::version::Version;

fn parts(v: &Version) -> (u64, u64, u64, Option<&str>) {
    (v.major(), v.minor(), v.patch(), v.qualifier().map(|q| q.as_str()))
}

fn qualified(major: u64, minor: u64, patch: u64, qualifier: &str) -> Version {
    let v = Version::parse(&format!("{}.{}.{}-{}", major, minor, patch, qualifier)).unwrap();
    assert_eq!(parts(&v), (major, minor, patch, Some(qualifier)));
    v
}

#[test]
fn parse_reads_three_numbers() {
    assert_eq!(Version::parse("1.2.11").unwrap(), Version::new(1, 2, 11));
    assert_eq!(Version::parse("0.0.0").unwrap(), Version::new(0, 0, 0));
    assert_eq!(Version::parse("10.20.30").unwrap(), Version::new(10, 20, 30));
}

#[test]
fn parse_counts_missing_components_as_zero() {
    assert_eq!(Version::parse("1.0").unwrap(), Version::new(1, 0, 0));
    assert_eq!(Version::parse("2").unwrap(), Version::new(2, 0, 0));
    assert_eq!(Version::parse("3.4").unwrap(), Version::new(3, 4, 0));
}

#[test]
fn parse_accepts_leading_zeros() {
    assert_eq!(Version::parse("01.002.0003").unwrap(), Version::new(1, 2, 3));
}

#[test]
fn parse_reads_qualifier_after_first_dash() {
    assert_eq!(Version::parse("1.2.3-beta").unwrap(), qualified(1, 2, 3, "beta"));
    assert_eq!(Version::parse("1.2.3-rc.1-x").unwrap(), qualified(1, 2, 3, "rc.1-x"));
    assert_eq!(Version::parse("1-alpha").unwrap(), qualified(1, 0, 0, "alpha"));
    assert_eq!(Version::parse("1.2-é").unwrap(), qualified(1, 2, 0, "é"));
}

#[test]
fn parse_reads_largest_component() {
    assert_eq!(
        Version::parse("18446744073709551615.0.1").unwrap(),
        Version::new(18446744073709551615, 0, 1)
    );
}

#[test]
fn parse_refuses_component_that_overflows() {
    assert!(matches!(
        Version::parse("18446744073709551616.0.0"),
        Err(FdmError::InvalidIdentifier)
    ));
    assert!(matches!(
        Version::parse("1.99999999999999999999999.0"),
        Err(FdmError::InvalidIdentifier)
    ));
}

#[test]
fn parse_refuses_malformed_text() {
    for text in [
        "", ".", "1.", ".1", "1..2", "1.2.3.4", "a.b.c", "1.2.x", "1.2.3-", "-beta", "1,2", " 1.2",
        "1.2 ", "v1.0", "1.-2", "+1",
    ] {
        assert!(
            matches!(Version::parse(text), Err(FdmError::InvalidIdentifier)),
            "{:?} should be refused",
            text
        );
    }
}

#[test]
fn parse_refuses_an_underscore_in_the_qualifier() {
    for text in ["1.0.0-x_shared_2.0.0", "1.2.3-_", "1-a_", "1.2-_b"] {
        assert!(
            matches!(Version::parse(text), Err(FdmError::InvalidIdentifier)),
            "{:?} should be refused",
            text
        );
    }
    assert!(Version::parse("1.0.0-x-shared-2.0.0").is_ok());
}

#[test]
fn the_parts_of_a_version_can_be_read() {
    assert_eq!(parts(&Version::new(1, 2, 3)), (1, 2, 3, None));
    assert_eq!(parts(&Version::parse("4.5").unwrap()), (4, 5, 0, None));
    assert_eq!(parts(&Version::parse("7-rc.1").unwrap()), (7, 0, 0, Some("rc.1")));
    assert_eq!(parts(&Version::default()), (0, 0, 0, None));
}

#[test]
fn to_string_writes_all_three_numbers() {
    assert_eq!(Version::new(1, 2, 11).to_string(), "1.2.11");
    assert_eq!(Version::new(0, 0, 0).to_string(), "0.0.0");
    assert_eq!(Version::new(1, 0, 0).to_string(), "1.0.0");
    assert_eq!(
        Version::new(18446744073709551615, 10, 100).to_string(),
        "18446744073709551615.10.100"
    );
}

#[test]
fn to_string_writes_qualifier() {
    assert_eq!(qualified(1, 2, 3, "beta").to_string(), "1.2.3-beta");
    assert_eq!(qualified(0, 1, 0, "rc.1-x").to_string(), "0.1.0-rc.1-x");
}

#[test]
fn parse_of_to_string_of_parse_is_parse() {
    for text in ["1.2.11", "1.0", "2", "01.02.03", "1.2.3-beta", "7-rc.1-x", "0.0.0", "1.2-é"] {
        let first = Version::parse(text).unwrap();
        let second = Version::parse(first.to_string().as_str()).unwrap();
        assert_eq!(first, second, "{:?}", text);
    }
}

#[test]
fn same_compares_all_four_parts() {
    let a = Version::parse("1.2.3-beta").unwrap();
    assert!(a.same(&qualified(1, 2, 3, "beta")));
    assert!(!a.same(&qualified(1, 2, 3, "alpha")));
    assert!(!a.same(&Version::new(1, 2, 3)));
    assert!(!a.same(&qualified(1, 2, 4, "beta")));
    assert!(Version::new(1, 0, 0).same(&Version::parse("1").unwrap()));
}

#[test]
fn try_from_reads_as_parse_does() {
    assert_eq!(Version::try_from("1.2.3-rc").unwrap(), Version::parse("1.2.3-rc").unwrap());
    assert!(matches!(Version::try_from("1..3"), Err(FdmError::InvalidIdentifier)));
}

#[test]
fn versions_are_ordered_part_by_part() {
    assert!(Version::new(1, 2, 3) < Version::new(1, 2, 4));
    assert!(Version::new(1, 9, 9) < Version::new(2, 0, 0));
    assert!(Version::new(1, 2, 3) < Version::parse("1.2.3-rc").unwrap());
}

#[test]
fn default_version_is_zero() {
    assert_eq!(Version::default(), Version::new(0, 0, 0));
}

#[test]
fn clone_keeps_the_version() {
    let a = qualified(4, 5, 6, "pre");
    assert_eq!(a.clone(), a);
}
