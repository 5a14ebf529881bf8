//! Version specifiers: the range notation in front of one, the bare version
//! that is left when the notation is dropped, and how two versions compare.

use crate::text::{chars_of, decimal, push_chars};
use vstd::prelude::*;
use vstd::std_specs::iter::IteratorSpec;

verus! {

/// An ASCII digit.
pub open spec fn is_digit(c: char) -> bool {
    '0' <= c && c <= '9'
}

/// The characters that make up a bare version: ASCII digits and the dot.
pub open spec fn is_version_char(c: char) -> bool {
    c == '.' || is_digit(c)
}

/// `is_version_char` as a predicate to filter with.
pub open spec fn version_chars() -> spec_fn(char) -> bool {
    |c: char| is_version_char(c)
}

/// What is left of a specifier once everything but digits and dots is dropped.
pub open spec fn stripped(specifier: Seq<char>) -> Seq<char> {
    specifier.filter(version_chars())
}

/// The specifier `*`, which allows any version.
pub open spec fn is_wildcard(specifier: Seq<char>) -> bool {
    specifier =~= seq!['*']
}

/// How many characters stand in front of the first digit or dot of `specifier`.
pub open spec fn range_len(specifier: Seq<char>) -> nat
    decreases specifier.len(),
{
    if specifier.len() == 0 || is_version_char(specifier.first()) {
        0
    } else {
        1 + range_len(specifier.drop_first())
    }
}

/// The range notation of a specifier: everything in front of its first digit
/// or dot. The wildcard has none.
pub open spec fn range_prefix(specifier: Seq<char>) -> Seq<char> {
    if is_wildcard(specifier) {
        Seq::empty()
    } else {
        specifier.take(range_len(specifier) as int)
    }
}

/// `range_len` is the one position that has no digit or dot in front of it
/// and is followed by one, or by the end.
pub proof fn lemma_range_len(specifier: Seq<char>, n: int)
    requires
        0 <= n <= specifier.len(),
        forall|i: int| 0 <= i < n ==> !is_version_char(specifier[i]),
        n < specifier.len() ==> is_version_char(specifier[n]),
    ensures
        range_len(specifier) == n,
    decreases n,
{
    if n > 0 {
        let rest = specifier.drop_first();
        assert forall|i: int| 0 <= i < n - 1 implies !is_version_char(rest[i]) by {
            assert(rest[i] == specifier[i + 1]);
        }
        lemma_range_len(rest, n - 1);
    }
}

/// What `range_len` counts: it stays within the specifier, no character in
/// front of it is a digit or a dot, and the character at it, if there is
/// one, is.
pub proof fn lemma_range_ends_at_version(specifier: Seq<char>)
    ensures
        range_len(specifier) <= specifier.len(),
        forall|i: int| 0 <= i < range_len(specifier) ==> !is_version_char(specifier[i]),
        range_len(specifier) < specifier.len() ==> is_version_char(
            specifier[range_len(specifier) as int],
        ),
    decreases specifier.len(),
{
    if !(specifier.len() == 0 || is_version_char(specifier.first())) {
        let rest = specifier.drop_first();
        lemma_range_ends_at_version(rest);
        assert forall|i: int| 0 <= i < range_len(specifier) implies !is_version_char(
            specifier[i],
        ) by {
            if i > 0 {
                assert(specifier[i] == rest[i - 1]);
            }
        }
        if range_len(specifier) < specifier.len() {
            assert(specifier[range_len(specifier) as int] == rest[range_len(rest) as int]);
        }
    }
}

fn version_char(c: char) -> (r: bool)
    ensures
        r == is_version_char(c),
{
    c == '.' || ('0' <= c && c <= '9')
}

/// Drops every character of `version` that is neither an ASCII digit nor a dot.
pub fn normalize_version(version: &str) -> (out: String)
    ensures
        out@ == stripped(version@),
{
    let mut out = String::new();
    let chars = version.chars();
    proof {
        reveal(Seq::filter);
    }
    for c in it: chars
        invariant
            it.seq() == version@,
            out@ == stripped(version@.take(it.index())),
    {
        proof {
            reveal(Seq::filter);
            let next = version@.take(it.index() + 1);
            assert(next.drop_last() == version@.take(it.index()));
            assert(next.last() == c);
        }
        if version_char(c) {
            out.push(c);
        }
    }
    assert(version@.take(version@.len() as int) == version@);
    out
}

/// The range notation in front of `version`: its characters up to the first
/// digit or dot. For the wildcard `*` the result is empty.
pub fn get_version_range(version: &str) -> (out: String)
    ensures
        out@ == range_prefix(version@),
{
    let chars = chars_of(version);
    let mut out = String::new();
    if chars.len() == 1 && chars[0] == '*' {
        return out;
    }
    let mut n: usize = 0;
    while n < chars.len() && !version_char(chars[n])
        invariant
            n <= chars.len(),
            forall|i: int| 0 <= i < n ==> !is_version_char(chars@[i]),
        decreases chars.len() - n,
    {
        n += 1;
    }
    proof {
        lemma_range_len(chars@, n as int);
    }
    push_chars(&mut out, &chars, 0, n);
    out
}

/// A bare version: the three numbers of `major.minor.patch`.
#[derive(Clone, Copy, Debug, PartialEq, Eq, Structural)]
pub struct SemanticVersion {
    pub major: u64,
    pub minor: u64,
    pub patch: u64,
}

/// Why a specifier does not normalise to a version.
#[derive(Clone, Copy, Debug, PartialEq, Eq, Structural)]
pub enum ParseError {
    /// The specifier holds neither a digit nor a dot.
    Empty,
    /// Its digits and dots do not spell three numbers.
    Malformed,
}

/// The number that the digit `c` stands for.
pub open spec fn digit_value(c: char) -> nat {
    (c as u32 - '0' as u32) as nat
}

/// The number that a run of digits spells in decimal.
pub open spec fn decimal_value(digits: Seq<char>) -> nat
    decreases digits.len(),
{
    if digits.len() == 0 {
        0
    } else {
        decimal_value(digits.drop_last()) * 10 + digit_value(digits.last())
    }
}

/// One number of a version: digits only and at least one, no zero in front
/// of another digit, and a value that a `u64` holds.
pub open spec fn is_component(digits: Seq<char>) -> bool {
    &&& digits.len() > 0
    &&& forall|i: int| 0 <= i < digits.len() ==> is_digit(#[trigger] digits[i])
    &&& digits.len() > 1 ==> digits[0] != '0'
    &&& decimal_value(digits) <= u64::MAX
}

/// The position of the first dot of `text`, or its length if it has none.
pub open spec fn dot_position(text: Seq<char>) -> int
    decreases text.len(),
{
    if text.len() == 0 || text.first() == '.' {
        0
    } else {
        1 + dot_position(text.drop_first())
    }
}

/// The version that `text` spells: three components with a dot after the
/// first and after the second, and nothing else.
pub open spec fn dotted_triple(text: Seq<char>) -> Option<SemanticVersion> {
    let first = dot_position(text);
    let major = text.take(first);
    let tail = text.skip(first + 1);
    let second = dot_position(tail);
    let minor = tail.take(second);
    let patch = tail.skip(second + 1);
    if first < text.len() && second < tail.len() && is_component(major) && is_component(minor)
        && is_component(patch) {
        Some(
            SemanticVersion {
                major: decimal_value(major) as u64,
                minor: decimal_value(minor) as u64,
                patch: decimal_value(patch) as u64,
            },
        )
    } else {
        None
    }
}

/// What a specifier normalises to: the version that its digits and dots
/// spell, if they spell one.
pub open spec fn normalized(specifier: Seq<char>) -> Result<SemanticVersion, ParseError> {
    match dotted_triple(stripped(specifier)) {
        Some(version) => Ok(version),
        None => Err(
            if stripped(specifier).len() == 0 {
                ParseError::Empty
            } else {
                ParseError::Malformed
            },
        ),
    }
}

#[verifier::external_type_specification]
#[verifier::external_body]
pub struct ExSemverError(semver::Error);

/// Calls `semver::Version::parse` on a text of digits and dots. On such a
/// text the parser has no pre-release or build part to read, so it accepts
/// exactly `major.minor.patch`, each number without a leading zero and within
/// `u64`, and returns the three numbers.
#[verifier::external_body]
fn parse_bare_version(text: &str) -> (r: Result<SemanticVersion, semver::Error>)
    requires
        forall|i: int| 0 <= i < text@.len() ==> is_version_char(#[trigger] text@[i]),
    ensures
        r matches Ok(version) ==> dotted_triple(text@) == Some(version),
        r is Err ==> dotted_triple(text@) is None,
{
    semver::Version::parse(text).map(
        |v| SemanticVersion { major: v.major, minor: v.minor, patch: v.patch },
    )
}

/// Normalises a specifier: drops everything but digits and dots and reads
/// the rest as `major.minor.patch`.
pub fn normalize(specifier: &str) -> (r: Result<SemanticVersion, ParseError>)
    ensures
        r == normalized(specifier@),
{
    let bare = normalize_version(specifier);
    assert forall|i: int| 0 <= i < bare@.len() implies is_version_char(#[trigger] bare@[i]) by {
        specifier@.lemma_filter_pred(version_chars(), i);
    }
    match parse_bare_version(bare.as_str()) {
        Ok(version) => Ok(version),
        Err(_) => {
            if bare.as_str().is_empty() {
                Err(ParseError::Empty)
            } else {
                Err(ParseError::Malformed)
            }
        },
    }
}

impl SemanticVersion {
    /// `self` comes after `other` when the two are compared number by number,
    /// major first.
    pub open spec fn newer_than(self, other: SemanticVersion) -> bool {
        ||| self.major > other.major
        ||| self.major == other.major && self.minor > other.minor
        ||| self.major == other.major && self.minor == other.minor && self.patch > other.patch
    }

    /// Whether `self` comes after `other`.
    pub fn is_newer_than(&self, other: &SemanticVersion) -> (r: bool)
        ensures
            r == self.newer_than(*other),
    {
        if self.major != other.major {
            self.major > other.major
        } else if self.minor != other.minor {
            self.minor > other.minor
        } else {
            self.patch > other.patch
        }
    }
}

/// How much of a version an upgrade changes.
#[derive(Clone, Copy, Debug, PartialEq, Eq, Structural)]
pub enum Severity {
    Major,
    Minor,
    Patch,
    Unchanged,
}

/// The severity of going from `current` to `latest`: the first of major,
/// minor and patch that `latest` raises.
pub open spec fn severity_of(current: SemanticVersion, latest: SemanticVersion) -> Severity {
    if latest.major > current.major {
        Severity::Major
    } else if latest.minor > current.minor {
        Severity::Minor
    } else if latest.patch > current.patch {
        Severity::Patch
    } else {
        Severity::Unchanged
    }
}

/// Classifies the upgrade from `current` to `latest`. A raised major number
/// wins over whatever the minor and patch numbers do.
pub fn classify_severity(current: &SemanticVersion, latest: &SemanticVersion) -> (s: Severity)
    ensures
        s == severity_of(*current, *latest),
        latest.major > current.major ==> s == Severity::Major,
{
    if latest.major > current.major {
        Severity::Major
    } else if latest.minor > current.minor {
        Severity::Minor
    } else if latest.patch > current.patch {
        Severity::Patch
    } else {
        Severity::Unchanged
    }
}

/// Range notation does not reach the version behind it. Take two specifiers
/// that hold the same `bare` text behind their range notation, neither of
/// them the wildcard: `range_prefix` gives each its own notation back, whole
/// and with nothing added, and both normalise to the same result.
pub proof fn lemma_range_is_isolated(range_a: Seq<char>, range_b: Seq<char>, bare: Seq<char>)
    requires
        forall|i: int| 0 <= i < range_a.len() ==> !is_version_char(range_a[i]),
        forall|i: int| 0 <= i < range_b.len() ==> !is_version_char(range_b[i]),
        bare.len() > 0 ==> is_version_char(bare[0]),
        !is_wildcard(range_a + bare),
        !is_wildcard(range_b + bare),
    ensures
        range_prefix(range_a + bare) == range_a,
        range_prefix(range_b + bare) == range_b,
        stripped(range_a + bare) == stripped(range_b + bare),
        normalized(range_a + bare) == normalized(range_b + bare),
{
    lemma_range_dropped(range_a, bare);
    lemma_range_dropped(range_b, bare);
}

/// A range in front of `rest` adds nothing to what is left after stripping,
/// and `range_len` counts all of it when `rest` begins the version.
pub proof fn lemma_range_dropped(range: Seq<char>, rest: Seq<char>)
    requires
        forall|i: int| 0 <= i < range.len() ==> !is_version_char(range[i]),
    ensures
        stripped(range + rest) == stripped(rest),
        rest.len() == 0 || is_version_char(rest[0]) ==> range_len(range + rest) == range.len()
            && (range + rest).take(range.len() as int) == range,
{
    Seq::filter_distributes_over_add(range, rest, version_chars());
    range.lemma_all_neg_filter_empty(version_chars());
    assert(stripped(range) + stripped(rest) == stripped(rest));
    if rest.len() == 0 || is_version_char(rest[0]) {
        lemma_range_len(range + rest, range.len() as int);
        assert((range + rest).take(range.len() as int) == range);
    }
}

/// A specifier that was written with the range notation of `current` in
/// front of a bare version has that same notation.
pub proof fn lemma_range_kept(current: Seq<char>, latest: Seq<char>)
    requires
        latest.len() > 0,
        is_version_char(latest[0]),
    ensures
        range_prefix(range_prefix(current) + latest) == range_prefix(current),
{
    let range = range_prefix(current);
    let written = range + latest;
    lemma_range_ends_at_version(current);
    assert(written[range.len() as int] == latest[0]);
    lemma_range_len(written, range.len() as int);
    assert(written.take(range.len() as int) == range);
    assert(!is_wildcard(written)) by {
        if written.len() == 1 {
            assert(written[0] == latest[0]);
        }
    }
}

/// A raised major number decides the severity, whatever the minor and patch
/// numbers do.
pub proof fn lemma_major_bump_dominates(current: SemanticVersion, latest: SemanticVersion)
    requires
        latest.major > current.major,
    ensures
        severity_of(current, latest) == Severity::Major,
{
}

/// For a newer version the severity names the first number that differs, and
/// it is never `Unchanged`.
pub proof fn lemma_severity_of_newer(current: SemanticVersion, latest: SemanticVersion)
    requires
        latest.newer_than(current),
    ensures
        severity_of(current, latest) != Severity::Unchanged,
        severity_of(current, latest) == Severity::Major <==> latest.major != current.major,
        severity_of(current, latest) == Severity::Minor <==> latest.major == current.major
            && latest.minor != current.minor,
        severity_of(current, latest) == Severity::Patch <==> latest.major == current.major
            && latest.minor == current.minor && latest.patch != current.patch,
{
}

/// A version written out in decimal: its three numbers with dots between.
pub open spec fn version_text(version: SemanticVersion) -> Seq<char> {
    decimal(version.major as nat) + seq!['.'] + decimal(version.minor as nat) + seq!['.']
        + decimal(version.patch as nat)
}

/// Writing a number in decimal gives digits that spell the number, with no
/// zero in front unless the number is zero.
pub proof fn lemma_decimal_spells(n: nat)
    ensures
        decimal(n).len() > 0,
        forall|i: int| 0 <= i < decimal(n).len() ==> is_digit(#[trigger] decimal(n)[i]),
        decimal_value(decimal(n)) == n,
        n > 0 ==> decimal(n)[0] != '0',
        n < 10 ==> decimal(n).len() == 1,
    decreases n,
{
    if n < 10 {
        assert(decimal(n).drop_last() =~= Seq::<char>::empty());
        assert(decimal_value(decimal(n).drop_last()) == 0);
    } else {
        lemma_decimal_spells(n / 10);
        assert(decimal(n).drop_last() =~= decimal(n / 10));
        assert(decimal(n)[0] == decimal(n / 10)[0]);
    }
}

/// The first dot of a text that begins with digits and a dot is that dot.
pub proof fn lemma_dot_after_digits(digits: Seq<char>, rest: Seq<char>)
    requires
        forall|i: int| 0 <= i < digits.len() ==> is_digit(#[trigger] digits[i]),
    ensures
        dot_position(digits + seq!['.'] + rest) == digits.len(),
    decreases digits.len(),
{
    let text = digits + seq!['.'] + rest;
    if digits.len() == 0 {
        assert(text.first() == '.');
    } else {
        assert(text.first() == digits[0]);
        assert(is_digit(digits[0]));
        let shorter = digits.drop_first();
        assert forall|i: int| 0 <= i < shorter.len() implies is_digit(#[trigger] shorter[i]) by {
            assert(shorter[i] == digits[i + 1]);
        }
        assert(text.drop_first() =~= shorter + seq!['.'] + rest);
        lemma_dot_after_digits(shorter, rest);
    }
}

/// Stripping leaves a text of digits and dots as it is.
pub proof fn lemma_stripped_keeps_version_chars(text: Seq<char>)
    requires
        forall|i: int| 0 <= i < text.len() ==> is_version_char(#[trigger] text[i]),
    ensures
        stripped(text) == text,
    decreases text.len(),
{
    reveal(Seq::filter);
    if text.len() > 0 {
        let front = text.drop_last();
        assert forall|i: int| 0 <= i < front.len() implies is_version_char(#[trigger] front[i]) by {
            assert(front[i] == text[i]);
        }
        lemma_stripped_keeps_version_chars(front);
        assert(is_version_char(text.last()));
        assert(front.push(text.last()) =~= text);
    }
}

/// Three components with dots between spell the version of their values.
pub proof fn lemma_triple_of_components(major: Seq<char>, minor: Seq<char>, patch: Seq<char>)
    requires
        is_component(major),
        is_component(minor),
        is_component(patch),
    ensures
        dotted_triple(major + seq!['.'] + minor + seq!['.'] + patch) == Some(
            SemanticVersion {
                major: decimal_value(major) as u64,
                minor: decimal_value(minor) as u64,
                patch: decimal_value(patch) as u64,
            },
        ),
{
    let text = major + seq!['.'] + minor + seq!['.'] + patch;
    let tail = minor + seq!['.'] + patch;
    assert(text =~= major + seq!['.'] + tail);
    lemma_dot_after_digits(major, tail);
    lemma_dot_after_digits(minor, patch);
    assert(text.take(major.len() as int) =~= major);
    assert(text.skip(major.len() as int + 1) =~= tail);
    assert(tail.take(minor.len() as int) =~= minor);
    assert(tail.skip(minor.len() as int + 1) =~= patch);
}

/// A number that a `u64` holds is written as a component.
pub proof fn lemma_decimal_is_component(n: u64)
    ensures
        is_component(decimal(n as nat)),
        decimal_value(decimal(n as nat)) == n,
{
    lemma_decimal_spells(n as nat);
}

/// A version that is written out normalises to itself, also behind range
/// notation.
pub proof fn lemma_written_version_normalizes(range: Seq<char>, version: SemanticVersion)
    requires
        forall|i: int| 0 <= i < range.len() ==> !is_version_char(range[i]),
    ensures
        dotted_triple(version_text(version)) == Some(version),
        normalized(range + version_text(version)) == Ok::<SemanticVersion, ParseError>(version),
{
    let major = decimal(version.major as nat);
    let minor = decimal(version.minor as nat);
    let patch = decimal(version.patch as nat);
    lemma_decimal_is_component(version.major);
    lemma_decimal_is_component(version.minor);
    lemma_decimal_is_component(version.patch);
    lemma_triple_of_components(major, minor, patch);
    let text = version_text(version);
    assert forall|i: int| 0 <= i < text.len() implies is_version_char(#[trigger] text[i]) by {
        if i < major.len() {
            assert(text[i] == major[i]);
        } else if i == major.len() {
        } else if i < major.len() + 1 + minor.len() {
            assert(text[i] == minor[i - major.len() - 1]);
        } else if i == major.len() + 1 + minor.len() {
        } else {
            assert(text[i] == patch[i - major.len() - minor.len() - 2]);
        }
    }
    lemma_stripped_keeps_version_chars(text);
    lemma_range_dropped(range, text);
}

} // verus!
