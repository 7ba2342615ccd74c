use crates_io_smoke_test::version::Version;

fn v(major: u64, minor: u64, patch: u64) -> Version {
    Version { major, minor, patch }
}

#[test]
fn parse_plain_triple() {
    assert_eq!(Version::parse("1.2.3"), Some(v(1, 2, 3)));
    assert_eq!(Version::parse("0.1.0"), Some(v(0, 1, 0)));
    assert_eq!(Version::parse("0.0.0"), Some(v(0, 0, 0)));
    assert_eq!(Version::parse("10.20.30"), Some(v(10, 20, 30)));
}

#[test]
fn parse_max_component() {
    assert_eq!(
        Version::parse("18446744073709551615.0.0"),
        Some(v(u64::MAX, 0, 0))
    );
    assert_eq!(
        Version::parse("1.2.18446744073709551615"),
        Some(v(1, 2, u64::MAX))
    );
}

#[test]
fn parse_rejects_overflowing_component() {
    assert_eq!(Version::parse("18446744073709551616.0.0"), None);
    assert_eq!(Version::parse("0.0.99999999999999999999"), None);
}

#[test]
fn parse_rejects_wrong_shape() {
    assert_eq!(Version::parse(""), None);
    assert_eq!(Version::parse("1"), None);
    assert_eq!(Version::parse("1.2"), None);
    assert_eq!(Version::parse("1.2.3.4"), None);
    assert_eq!(Version::parse("1..3"), None);
    assert_eq!(Version::parse(".2.3"), None);
    assert_eq!(Version::parse("1.2."), None);
    assert_eq!(Version::parse("a.b.c"), None);
    assert_eq!(Version::parse("1.2.3-alpha"), None);
    assert_eq!(Version::parse("1.2.3 "), None);
    assert_eq!(Version::parse(" 1.2.3"), None);
}

#[test]
fn parse_rejects_leading_zeroes() {
    assert_eq!(Version::parse("01.2.3"), None);
    assert_eq!(Version::parse("1.02.3"), None);
    assert_eq!(Version::parse("1.2.03"), None);
    assert_eq!(Version::parse("00.0.0"), None);
}

#[test]
fn to_text_renders_canonically() {
    assert_eq!(v(1, 2, 3).to_text(), "1.2.3");
    assert_eq!(v(0, 1, 0).to_text(), "0.1.0");
    assert_eq!(v(0, 0, 0).to_text(), "0.0.0");
    assert_eq!(v(u64::MAX, 0, 7).to_text(), "18446744073709551615.0.7");
}

#[test]
fn text_round_trip() {
    let samples = vec![
        v(0, 0, 0),
        v(0, 1, 0),
        v(1, 2, 3),
        v(12, 0, 345),
        v(u64::MAX, u64::MAX, u64::MAX),
    ];
    for sample in samples {
        assert_eq!(Version::parse(&sample.to_text()), Some(sample));
    }
}

#[test]
fn increment_patch_bumps_only_the_patch() {
    let old = v(1, 2, 3);
    let new = old.increment_patch();
    assert_eq!(new, v(1, 2, 4));
    assert_eq!(new.major, old.major);
    assert_eq!(new.minor, old.minor);
    assert_eq!(new.patch, old.patch + 1);
}
