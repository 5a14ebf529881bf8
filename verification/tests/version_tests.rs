use nrush::version::{
    classify_severity, get_version_range, normalize, normalize_version, ParseError,
    SemanticVersion, Severity,
};

fn version(major: u64, minor: u64, patch: u64) -> SemanticVersion {
    SemanticVersion { major, minor, patch }
}

#[test]
fn normalize_version_keeps_digits_and_dots() {
    assert_eq!(normalize_version("^1.2.3"), "1.2.3");
    assert_eq!(normalize_version("~0.10.4"), "0.10.4");
    assert_eq!(normalize_version(">=2.0.0"), "2.0.0");
    assert_eq!(normalize_version("1.2.3"), "1.2.3");
    assert_eq!(normalize_version("1.2.3-beta.4"), "1.2.3.4");
    assert_eq!(normalize_version(">=1.2.3 <2.0.0"), "1.2.32.0.0");
}

#[test]
fn normalize_version_of_text_without_digits_is_empty() {
    assert_eq!(normalize_version("*"), "");
    assert_eq!(normalize_version(""), "");
    assert_eq!(normalize_version("latest"), "");
    assert_eq!(normalize_version("Version not found"), "");
}

#[test]
fn normalize_version_drops_non_ascii_digits() {
    assert_eq!(normalize_version("v\u{0661}.2.3"), ".2.3");
    assert_eq!(normalize_version("\u{ff11}\u{3002}1"), "1");
}

#[test]
fn range_is_what_stands_before_the_first_digit_or_dot() {
    assert_eq!(get_version_range("^1.2.0"), "^");
    assert_eq!(get_version_range("~1.2.0"), "~");
    assert_eq!(get_version_range(">=1.2.0"), ">=");
    assert_eq!(get_version_range("<=1.2.0"), "<=");
    assert_eq!(get_version_range("1.2.0"), "");
    assert_eq!(get_version_range(".5"), "");
    assert_eq!(get_version_range(""), "");
}

#[test]
fn range_stops_at_the_first_digit() {
    assert_eq!(get_version_range("^1.2.0-beta"), "^");
    assert_eq!(get_version_range(">=1.0.0 <2.0.0"), ">=");
    assert_eq!(get_version_range("v1"), "v");
}

#[test]
fn range_of_the_wildcard_is_empty() {
    assert_eq!(get_version_range("*"), "");
}

#[test]
fn range_of_text_without_digits_is_the_whole_text() {
    assert_eq!(get_version_range("latest"), "latest");
    assert_eq!(get_version_range("**"), "**");
    assert_eq!(get_version_range("Version not found"), "Version not found");
}

#[test]
fn normalize_reads_three_numbers() {
    assert_eq!(normalize("1.2.3"), Ok(version(1, 2, 3)));
    assert_eq!(normalize("^1.2.3"), Ok(version(1, 2, 3)));
    assert_eq!(normalize("~0.0.0"), Ok(version(0, 0, 0)));
    assert_eq!(normalize(">=10.20.30"), Ok(version(10, 20, 30)));
    assert_eq!(
        normalize("18446744073709551615.0.1"),
        Ok(version(18446744073709551615, 0, 1))
    );
}

#[test]
fn normalize_is_blind_to_the_range_in_front() {
    let bare = normalize("4.17.21");
    assert_eq!(normalize("^4.17.21"), bare);
    assert_eq!(normalize("~4.17.21"), bare);
    assert_eq!(normalize(">=4.17.21"), bare);
    assert_eq!(normalize("v4.17.21"), bare);
    assert_eq!(get_version_range("^4.17.21"), "^");
    assert_eq!(get_version_range("v4.17.21"), "v");
}

#[test]
fn normalize_of_text_without_digits_is_empty() {
    assert_eq!(normalize("*"), Err(ParseError::Empty));
    assert_eq!(normalize(""), Err(ParseError::Empty));
    assert_eq!(normalize("Version not found"), Err(ParseError::Empty));
}

#[test]
fn normalize_rejects_what_spells_no_version() {
    assert_eq!(normalize("1.2"), Err(ParseError::Malformed));
    assert_eq!(normalize("1"), Err(ParseError::Malformed));
    assert_eq!(normalize("1.2.3.4"), Err(ParseError::Malformed));
    assert_eq!(normalize("1..3"), Err(ParseError::Malformed));
    assert_eq!(normalize(".1.2.3"), Err(ParseError::Malformed));
    assert_eq!(normalize("1.2.3."), Err(ParseError::Malformed));
    assert_eq!(normalize("1.2."), Err(ParseError::Malformed));
    assert_eq!(normalize("..."), Err(ParseError::Malformed));
    assert_eq!(normalize("1.2.3-beta.4"), Err(ParseError::Malformed));
    assert_eq!(normalize(">=1.2.3 <2.0.0"), Err(ParseError::Malformed));
}

#[test]
fn normalize_rejects_leading_zeros() {
    assert_eq!(normalize("01.2.3"), Err(ParseError::Malformed));
    assert_eq!(normalize("1.02.3"), Err(ParseError::Malformed));
    assert_eq!(normalize("1.2.03"), Err(ParseError::Malformed));
    assert_eq!(normalize("00.0.0"), Err(ParseError::Malformed));
    assert_eq!(normalize("0.0.0"), Ok(version(0, 0, 0)));
}

#[test]
fn normalize_rejects_numbers_beyond_u64() {
    assert_eq!(
        normalize("18446744073709551616.0.0"),
        Err(ParseError::Malformed)
    );
    assert_eq!(
        normalize("0.0.99999999999999999999"),
        Err(ParseError::Malformed)
    );
}

#[test]
fn versions_compare_number_by_number() {
    assert!(version(2, 0, 0).is_newer_than(&version(1, 9, 9)));
    assert!(version(1, 3, 0).is_newer_than(&version(1, 2, 9)));
    assert!(version(1, 2, 4).is_newer_than(&version(1, 2, 3)));
    assert!(!version(1, 2, 3).is_newer_than(&version(1, 2, 3)));
    assert!(!version(1, 9, 9).is_newer_than(&version(2, 0, 0)));
    assert!(!version(1, 2, 9).is_newer_than(&version(1, 3, 0)));
    assert!(version(1, 10, 0).is_newer_than(&version(1, 9, 0)));
}

#[test]
fn severity_is_the_first_number_raised() {
    assert_eq!(
        classify_severity(&version(1, 2, 3), &version(2, 0, 0)),
        Severity::Major
    );
    assert_eq!(
        classify_severity(&version(1, 2, 3), &version(1, 3, 0)),
        Severity::Minor
    );
    assert_eq!(
        classify_severity(&version(1, 2, 3), &version(1, 2, 4)),
        Severity::Patch
    );
    assert_eq!(
        classify_severity(&version(1, 2, 3), &version(1, 2, 3)),
        Severity::Unchanged
    );
    assert_eq!(
        classify_severity(&version(1, 2, 3), &version(1, 2, 2)),
        Severity::Unchanged
    );
}

#[test]
fn a_major_bump_wins_over_lower_minor_and_patch() {
    assert_eq!(
        classify_severity(&version(2, 9, 9), &version(3, 0, 0)),
        Severity::Major
    );
    assert_eq!(
        classify_severity(&version(0, 0, 0), &version(1, 0, 0)),
        Severity::Major
    );
}

#[test]
fn severity_looks_at_each_number_in_turn() {
    assert_eq!(
        classify_severity(&version(3, 0, 0), &version(2, 9, 9)),
        Severity::Minor
    );
    assert_eq!(
        classify_severity(&version(1, 5, 0), &version(1, 4, 7)),
        Severity::Patch
    );
}

fn component(digits: &str) -> Option<u64> {
    if digits.is_empty() || !digits.chars().all(|c| c.is_ascii_digit()) {
        return None;
    }
    if digits.len() > 1 && digits.starts_with('0') {
        return None;
    }
    digits.parse::<u64>().ok()
}

fn three_numbers(text: &str) -> Option<SemanticVersion> {
    let first = text.find('.')?;
    let tail = &text[first + 1..];
    let second = tail.find('.')?;
    Some(version(
        component(&text[..first])?,
        component(&tail[..second])?,
        component(&tail[second + 1..])?,
    ))
}

#[test]
fn normalize_accepts_exactly_three_numbers_with_dots() {
    let alphabet = ['0', '1', '9', '.'];
    let mut texts = vec![String::new()];
    let mut checked = 0;
    for _ in 0..7 {
        let mut longer = Vec::new();
        for text in &texts {
            for c in alphabet {
                let mut next = text.clone();
                next.push(c);
                longer.push(next);
            }
        }
        for text in &longer {
            let expected = match three_numbers(text) {
                Some(found) => Ok(found),
                None => Err(ParseError::Malformed),
            };
            assert_eq!(normalize(text), expected, "for {:?}", text);
            checked += 1;
        }
        texts = longer;
    }
    assert_eq!(checked, 4 + 16 + 64 + 256 + 1024 + 4096 + 16384);
}

#[test]
fn normalize_reads_numbers_up_to_the_largest() {
    let largest = u64::MAX.to_string();
    let beyond = "18446744073709551616";
    for (text, expected) in [
        (format!("{}.{}.{}", largest, largest, largest), true),
        (format!("{}.0.0", beyond), false),
        (format!("0.{}.0", beyond), false),
        (format!("0.0.{}", beyond), false),
        (format!("0.0.{}0", largest), false),
        (format!("0.0.1{}", largest), false),
    ] {
        assert_eq!(normalize(&text).is_ok(), expected, "for {:?}", text);
        assert_eq!(normalize(&text).ok(), three_numbers(&text));
    }
}
