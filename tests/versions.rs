use hang::version::compare_versions;
use std::cmp::Ordering;

#[test]
fn test_version_comparison() {
    assert_eq!(compare_versions("1.0.0", "1.0.0"), Ordering::Equal);
    assert_eq!(compare_versions("1.0.0", "1.0.1"), Ordering::Less);
    assert_eq!(compare_versions("1.0.1", "1.0.0"), Ordering::Greater);
    assert_eq!(compare_versions("1.0.0", "1.1.0"), Ordering::Less);
    assert_eq!(compare_versions("1.0.0", "2.0.0"), Ordering::Less);
    assert_eq!(compare_versions("0.1.0", "0.1.0"), Ordering::Equal);
}

#[test]
fn versions_skip_non_numbers_and_pad_with_zero() {
    assert_eq!(compare_versions("1.2", "1.2.0"), Ordering::Equal);
    assert_eq!(compare_versions("1.x.2", "1.2"), Ordering::Equal);
    assert_eq!(compare_versions("+3.0.0", "3"), Ordering::Equal);
    assert_eq!(compare_versions("10.0.0", "9.9.9"), Ordering::Greater);
    assert_eq!(compare_versions("1.0.0.9", "1.0.0"), Ordering::Equal);
    assert_eq!(compare_versions("99999999999.0", "0"), Ordering::Equal);
}
