use python_provision::version::{Prerelease, PrereleaseKind, PythonVariant, PythonVersion};

fn version(major: u8, minor: u8, patch: Option<u8>, pre: Option<Prerelease>) -> PythonVersion {
    PythonVersion::new(major, minor, patch, pre)
}

#[test]
fn version_with_and_without_patch() {
    assert_eq!(PythonVersion::from_str("3.10"), Some(version(3, 10, None, None)));
    assert_eq!(PythonVersion::from_str("3.10.8"), Some(version(3, 10, Some(8), None)));
    assert_eq!(PythonVersion::from_str("3.10.17"), Some(version(3, 10, Some(17), None)));
    assert_eq!(PythonVersion::from_str("0.0.0"), Some(version(0, 0, Some(0), None)));
    assert_eq!(PythonVersion::from_str("255.255.255"), Some(version(255, 255, Some(255), None)));
}

#[test]
fn version_with_prerelease() {
    let rc = Prerelease { kind: PrereleaseKind::Rc, number: 1 };
    let alpha = Prerelease { kind: PrereleaseKind::Alpha, number: 12 };
    let beta = Prerelease { kind: PrereleaseKind::Beta, number: 0 };
    assert_eq!(PythonVersion::from_str("3.13.0rc1"), Some(version(3, 13, Some(0), Some(rc))));
    assert_eq!(PythonVersion::from_str("3.14a12"), Some(version(3, 14, None, Some(alpha))));
    assert_eq!(PythonVersion::from_str("3.14.1b0"), Some(version(3, 14, Some(1), Some(beta))));
    let big = Prerelease { kind: PrereleaseKind::Rc, number: u64::MAX };
    assert_eq!(
        PythonVersion::from_str("3.13.0rc18446744073709551615"),
        Some(version(3, 13, Some(0), Some(big)))
    );
}

#[test]
fn version_leading_zeros_are_read_as_numbers() {
    assert_eq!(PythonVersion::from_str("03.010.008"), Some(version(3, 10, Some(8), None)));
    assert_eq!(PythonVersion::from_str("3.10.8rc01"), Some(version(
        3,
        10,
        Some(8),
        Some(Prerelease { kind: PrereleaseKind::Rc, number: 1 })
    )));
    assert_eq!(PythonVersion::from_str("0000000000000000000003.1"), Some(version(3, 1, None, None)));
}

#[test]
fn version_refusals() {
    let refused = [
        "",
        "3",
        "3.",
        ".10",
        "3.10.",
        "3.10.8.1",
        "3.x",
        "a.b",
        "3.10.8-rc1",
        "3.10.8rc",
        "3.10.8c1",
        "3.10.8 ",
        " 3.10.8",
        "v3.10",
        "3.10.8+debug",
        "3.256",
        "256.1",
        "3.10.256",
        "3.10.1000000000000000000000000",
        "3.10.8rc18446744073709551616",
        "3.10.8rc1x",
        "3.10rc1.2",
        "3..10",
        "٣.١٠",
    ];
    for input in refused {
        assert_eq!(PythonVersion::from_str(input), None, "{input:?}");
    }
}

#[test]
fn version_written_form() {
    assert_eq!(version(3, 10, None, None).to_string(), "3.10");
    assert_eq!(version(3, 10, Some(8), None).to_string(), "3.10.8");
    assert_eq!(version(3, 10, Some(0), None).to_string(), "3.10.0");
    assert_eq!(version(255, 0, Some(100), None).to_string(), "255.0.100");
    let rc = Prerelease { kind: PrereleaseKind::Rc, number: 2 };
    assert_eq!(version(3, 13, Some(0), Some(rc)).to_string(), "3.13.0rc2");
    let alpha = Prerelease { kind: PrereleaseKind::Alpha, number: 10 };
    assert_eq!(version(3, 14, None, Some(alpha)).to_string(), "3.14a10");
    let beta = Prerelease { kind: PrereleaseKind::Beta, number: u64::MAX };
    assert_eq!(version(3, 14, Some(1), Some(beta)).to_string(), "3.14.1b18446744073709551615");
}

#[test]
fn version_round_trip_on_values() {
    let pres = [
        None,
        Some(Prerelease { kind: PrereleaseKind::Alpha, number: 0 }),
        Some(Prerelease { kind: PrereleaseKind::Beta, number: 7 }),
        Some(Prerelease { kind: PrereleaseKind::Rc, number: 123456789 }),
    ];
    for major in [0u8, 3, 9, 10, 99, 100, 255] {
        for minor in [0u8, 1, 13, 200] {
            for patch in [None, Some(0u8), Some(9), Some(10), Some(255)] {
                for pre in pres {
                    let v = version(major, minor, patch, pre);
                    assert_eq!(PythonVersion::from_str(&v.to_string()), Some(v));
                }
            }
        }
    }
}

#[test]
fn version_order() {
    let v = |s: &str| PythonVersion::from_str(s).unwrap();
    assert!(v("3.10.8").precedes(&v("3.10.17")));
    assert!(!v("3.10.17").precedes(&v("3.10.8")));
    assert!(v("3.9.20").precedes(&v("3.10.0")));
    assert!(v("2.7.18").precedes(&v("3.0.0")));
    assert!(!v("3.10.8").precedes(&v("3.10.8")));
    // A prerelease comes before the release it leads to.
    assert!(v("3.13.0rc1").precedes(&v("3.13.0")));
    assert!(v("3.13.0a7").precedes(&v("3.13.0b1")));
    assert!(v("3.13.0b9").precedes(&v("3.13.0rc1")));
    assert!(v("3.13.0rc1").precedes(&v("3.13.0rc2")));
    assert!(!v("3.13.0").precedes(&v("3.13.0rc2")));
    // A version without a patch counts as patch 0.
    assert!(!v("3.10").precedes(&v("3.10.0")));
    assert!(!v("3.10.0").precedes(&v("3.10")));
    assert!(v("3.10").precedes(&v("3.10.1")));
}

#[test]
fn version_accessors() {
    let rc = Prerelease { kind: PrereleaseKind::Rc, number: 3 };
    let v = version(3, 13, Some(1), Some(rc));
    assert_eq!(v.major(), 3);
    assert_eq!(v.minor(), 13);
    assert_eq!(v.patch(), Some(1));
    assert_eq!(v.pre(), Some(rc));
    assert_eq!(v.without_patch(), version(3, 13, None, None));
}

#[test]
fn variant_tokens() {
    assert_eq!(PythonVariant::Default.name(), "default");
    assert_eq!(PythonVariant::Freethreaded.name(), "freethreaded");
    assert_eq!(PythonVariant::Default.suffix(), "");
    assert_eq!(PythonVariant::Freethreaded.suffix(), "t");
    let chars = |s: &str| s.chars().collect::<Vec<char>>();
    assert_eq!(PythonVariant::parse(&chars("default")), Some(PythonVariant::Default));
    assert_eq!(PythonVariant::parse(&chars("freethreaded")), Some(PythonVariant::Freethreaded));
    assert_eq!(PythonVariant::parse(&chars("Freethreaded")), None);
    assert_eq!(PythonVariant::parse(&chars("debug")), None);
    assert_eq!(PythonVariant::parse(&chars("")), None);
}

#[test]
fn prerelease_kind_letters() {
    assert_eq!(PrereleaseKind::Alpha.name(), "a");
    assert_eq!(PrereleaseKind::Beta.name(), "b");
    assert_eq!(PrereleaseKind::Rc.name(), "rc");
}
