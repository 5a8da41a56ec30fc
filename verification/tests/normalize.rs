use python_provision::normalize::{
    is_normalized, normalize as normalize_name, parse_pip_group, validate_and_normalize_ref,
    InvalidNameError, InvalidPipGroupError,
};

#[test]
fn normalize() {
    let inputs = [
        "friendly-bard",
        "Friendly-Bard",
        "FRIENDLY-BARD",
        "friendly.bard",
        "friendly_bard",
        "friendly--bard",
        "friendly-.bard",
        "FrIeNdLy-._.-bArD",
    ];
    for input in inputs {
        assert_eq!(
            validate_and_normalize_ref(input).unwrap().as_ref(),
            "friendly-bard"
        );
    }
}

#[test]
fn check() {
    let inputs = ["friendly-bard", "friendlybard"];
    for input in inputs {
        assert!(is_normalized(input).unwrap(), "{input:?}");
    }

    let inputs = [
        "friendly.bard",
        "friendly.BARD",
        "friendly_bard",
        "friendly--bard",
        "friendly-.bard",
        "FrIeNdLy-._.-bArD",
    ];
    for input in inputs {
        assert!(!is_normalized(input).unwrap(), "{input:?}");
    }
}

#[test]
fn unchanged() {
    // Unchanged
    let unchanged = ["friendly-bard", "1okay", "okay2"];
    for input in unchanged {
        assert_eq!(validate_and_normalize_ref(input).unwrap().as_ref(), input);
        assert!(is_normalized(input).unwrap());
    }
}

#[test]
fn failures() {
    let failures = [
        " starts-with-space",
        "-starts-with-dash",
        "ends-with-dash-",
        "ends-with-space ",
        "includes!invalid-char",
        "space in middle",
        "alpha-α",
    ];
    for input in failures {
        assert!(validate_and_normalize_ref(input).is_err());
        assert!(is_normalized(input).is_err());
    }
}

#[test]
fn normalize_all_vectors_directly() {
    let inputs = [
        "friendly-bard",
        "Friendly-Bard",
        "FRIENDLY-BARD",
        "friendly.bard",
        "friendly_bard",
        "friendly--bard",
        "friendly-.bard",
        "FrIeNdLy-._.-bArD",
    ];
    for input in inputs {
        assert_eq!(normalize_name(input).unwrap(), "friendly-bard");
    }
}

#[test]
fn normalize_is_idempotent() {
    let inputs = ["FrIeNdLy-._.-bArD", "A", "a.b_c-d", "Z9__9z", "1okay"];
    for input in inputs {
        let once = normalize_name(input).unwrap();
        let twice = normalize_name(&once).unwrap();
        assert_eq!(once, twice);
        assert!(is_normalized(&once).unwrap());
    }
}

#[test]
fn is_normalized_tells_whether_normalize_changes_the_name() {
    let inputs = [
        "friendly-bard",
        "Friendly-Bard",
        "a",
        "a-b-c",
        "a--b",
        "a.b",
        "x_1",
        "0",
        "abc9",
    ];
    for input in inputs {
        let normal = normalize_name(input).unwrap();
        assert_eq!(is_normalized(input).unwrap(), normal == input, "{input:?}");
    }
}

#[test]
fn empty_name_is_refused() {
    assert!(normalize_name("").is_err());
    assert!(is_normalized("").is_err());
    assert!(validate_and_normalize_ref("").is_err());
}

#[test]
fn quick_check_stops_at_the_first_deciding_character() {
    // The quick check answers "not normalized" before it reaches the character
    // that makes the name invalid; the full normalizer refuses the name.
    assert_eq!(is_normalized("A!"), Ok(false));
    assert!(normalize_name("A!").is_err());
    assert_eq!(is_normalized("a_"), Ok(false));
    assert!(normalize_name("a_").is_err());
    assert_eq!(is_normalized(".abc"), Ok(false));
    assert!(normalize_name(".abc").is_err());
    assert_eq!(is_normalized("a--"), Ok(false));
    assert!(normalize_name("a--").is_err());
    // Together they refuse the name.
    assert!(validate_and_normalize_ref("A!").is_err());
    assert!(validate_and_normalize_ref("a_").is_err());
}

#[test]
fn single_characters() {
    assert_eq!(normalize_name("a").unwrap(), "a");
    assert_eq!(normalize_name("Q").unwrap(), "q");
    assert_eq!(normalize_name("7").unwrap(), "7");
    assert!(normalize_name("-").is_err());
    assert!(normalize_name("_").is_err());
    assert!(normalize_name(".").is_err());
    assert!(is_normalized("-").is_err());
}

#[test]
fn runs_of_punctuation_collapse() {
    assert_eq!(normalize_name("a...b").unwrap(), "a-b");
    assert_eq!(normalize_name("a-_-b__c").unwrap(), "a-b-c");
    assert_eq!(normalize_name("A.B.C").unwrap(), "a-b-c");
}

#[test]
fn invalid_name_error_carries_the_name() {
    let err = normalize_name("not valid").unwrap_err();
    assert_eq!(err.as_str(), "not valid");
    assert_eq!(
        err.to_string(),
        "Not a valid package or extra name: \"not valid\". Names must start and end with a letter or digit and may only contain -, _, ., and alphanumeric characters."
    );
    let err = is_normalized("-x").unwrap_err();
    assert_eq!(err.as_str(), "-x");
    let err: InvalidNameError = validate_and_normalize_ref("x-").unwrap_err();
    assert_eq!(err.as_str(), "x-");
}

#[test]
fn group_error_wraps_the_name_error() {
    let err = normalize_name("bad name").unwrap_err();
    let text = err.to_string();
    let group = InvalidPipGroupError::from(err.clone());
    assert_eq!(group, InvalidPipGroupError::Name(err));
    assert_eq!(group.to_string(), text);
}

#[test]
fn group_with_and_without_path() {
    let group = parse_pip_group("Dev_Tools").unwrap();
    assert_eq!(group.path, None);
    assert_eq!(group.name.as_ref(), "dev-tools");
    let group = parse_pip_group("pyproject.toml:docs").unwrap();
    assert_eq!(group.path.as_deref(), Some("pyproject.toml"));
    assert_eq!(group.name.as_ref(), "docs");
    let group = parse_pip_group("sub/dir/pyproject.toml:Test.Extras").unwrap();
    assert_eq!(group.path.as_deref(), Some("sub/dir/pyproject.toml"));
    assert_eq!(group.name.as_ref(), "test-extras");
    // The name follows the last `:`.
    let group = parse_pip_group("C:/x/pyproject.toml:lint").unwrap();
    assert_eq!(group.path.as_deref(), Some("C:/x/pyproject.toml"));
    assert_eq!(group.name.as_ref(), "lint");
    let group = parse_pip_group("my-pyproject.toml:lint").unwrap();
    assert_eq!(group.path.as_deref(), Some("my-pyproject.toml"));
}

#[test]
fn group_refusals() {
    let path = |text: &str| match parse_pip_group(text) {
        Err(InvalidPipGroupError::Path(e)) => e.as_str().to_string(),
        other => panic!("{other:?}"),
    };
    let name = |text: &str| match parse_pip_group(text) {
        Err(InvalidPipGroupError::Name(e)) => e.as_str().to_string(),
        other => panic!("{other:?}"),
    };
    assert_eq!(path("setup.cfg:dev"), "setup.cfg");
    assert_eq!(path(":dev"), "");
    assert_eq!(path("pyproject.toml/:dev"), "pyproject.toml/");
    assert_eq!(path("yproject.toml:dev"), "yproject.toml");
    assert_eq!(path("pyproject.tom:dev"), "pyproject.tom");
    assert_eq!(path("a:b:c"), "a:b");
    // The path is judged before the name.
    assert_eq!(path("setup.cfg:not a name"), "setup.cfg");
    assert_eq!(name("pyproject.toml:not a name"), "not a name");
    assert_eq!(name("pyproject.toml:"), "");
    assert_eq!(name("not a name"), "not a name");
    assert_eq!(name(""), "");
    let err = parse_pip_group("x.toml:dev").unwrap_err();
    assert_eq!(
        err.to_string(),
        "The `--group` path is required to end in 'pyproject.toml' for compatibility with pip; got: x.toml"
    );
    match err {
        InvalidPipGroupError::Path(inner) => {
            assert_eq!(InvalidPipGroupError::from(inner.clone()), InvalidPipGroupError::Path(inner));
        }
        InvalidPipGroupError::Name(_) => unreachable!(),
    }
}
