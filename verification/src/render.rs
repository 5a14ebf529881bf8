//! How an available update is shown: the latest version, painted from the
//! first number that the update raises and tagged with its severity.

use crate::manifest::{declared, declared_specifier, specifier_in, DependencyClass, NOT_FOUND};
use crate::planner::UpdateCandidate;
use crate::text::{contains, decimal, occurs_at, occurs_in, push_decimal};
use crate::version::{
    classify_severity, is_digit, lemma_decimal_spells, normalize, normalized, severity_of,
    stripped, version_text, ParseError, SemanticVersion, Severity,
};
use vstd::pervasive::unreached;
use vstd::prelude::*;
use vstd::string::StringExecFns;

verus! {

/// Terminal colour of a major update.
pub const MAJOR: &'static str = "\x1b[31m";

/// Terminal colour of a minor update.
pub const MINOR: &'static str = "\x1b[33m";

/// Terminal colour of a patch update.
pub const PATCH: &'static str = "\x1b[32m";

/// Ends a terminal colour.
pub const RESET: &'static str = "\x1b[0m";

/// Terminal colour of side notes.
pub const GRAY: &'static str = "\x1b[90m";

/// The latest version as it is shown next to the current one. An update is
/// painted from the first number that it raises to the end and tagged with
/// its severity; a version that raises nothing is written plain.
pub open spec fn colorized(current: SemanticVersion, latest: SemanticVersion) -> Seq<char> {
    let major = decimal(latest.major as nat);
    let minor = decimal(latest.minor as nat);
    let patch = decimal(latest.patch as nat);
    match severity_of(current, latest) {
        Severity::Major => MAJOR@ + major + seq!['.'] + minor + seq!['.'] + patch + " (major)"@
            + RESET@,
        Severity::Minor => major + seq!['.'] + MINOR@ + minor + seq!['.'] + patch + " (minor)"@
            + RESET@,
        Severity::Patch => major + seq!['.'] + minor + seq!['.'] + PATCH@ + patch + " (patch)"@
            + RESET@,
        Severity::Unchanged => version_text(latest),
    }
}

/// The version that an update is measured against: what the current
/// specifier normalises to, and `0.0.0` for a specifier without any digit
/// or dot. `None` where the specifier has digits or dots that spell no
/// version.
pub open spec fn baseline(current: Seq<char>) -> Option<SemanticVersion> {
    if stripped(current).len() == 0 {
        Some(SemanticVersion { major: 0, minor: 0, patch: 0 })
    } else {
        match normalized(current) {
            Ok(version) => Some(version),
            Err(_) => None,
        }
    }
}

/// A version text with the severity of the update that leads to it.
#[derive(Clone, Debug, PartialEq, Eq)]
pub struct TaggedVersion {
    pub text: String,
    pub severity: Severity,
}

/// Writes `version` out in decimal.
pub fn version_string(version: &SemanticVersion) -> (text: String)
    ensures
        text@ == version_text(*version),
{
    let mut text = String::new();
    push_decimal(&mut text, version.major);
    text.push('.');
    push_decimal(&mut text, version.minor);
    text.push('.');
    push_decimal(&mut text, version.patch);
    assert(text@ =~= version_text(*version));
    text
}

/// The latest version written out, tagged with the severity of the update
/// from `current`.
pub fn format_colorized(current: &SemanticVersion, latest: &SemanticVersion) -> (tagged:
    TaggedVersion)
    ensures
        tagged.text@ == version_text(*latest),
        tagged.severity == severity_of(*current, *latest),
{
    TaggedVersion { text: version_string(latest), severity: classify_severity(current, latest) }
}

/// Paints `latest` as an update from `current`: see `colorized`.
pub fn paint(current: &SemanticVersion, latest: &SemanticVersion) -> (text: String)
    ensures
        text@ == colorized(*current, *latest),
{
    let mut text = String::new();
    match classify_severity(current, latest) {
        Severity::Major => {
            text.append(MAJOR);
            push_decimal(&mut text, latest.major);
            text.push('.');
            push_decimal(&mut text, latest.minor);
            text.push('.');
            push_decimal(&mut text, latest.patch);
            text.append(" (major)");
            text.append(RESET);
        },
        Severity::Minor => {
            push_decimal(&mut text, latest.major);
            text.push('.');
            text.append(MINOR);
            push_decimal(&mut text, latest.minor);
            text.push('.');
            push_decimal(&mut text, latest.patch);
            text.append(" (minor)");
            text.append(RESET);
        },
        Severity::Patch => {
            push_decimal(&mut text, latest.major);
            text.push('.');
            push_decimal(&mut text, latest.minor);
            text.push('.');
            text.append(PATCH);
            push_decimal(&mut text, latest.patch);
            text.append(" (patch)");
            text.append(RESET);
        },
        Severity::Unchanged => {
            push_decimal(&mut text, latest.major);
            text.push('.');
            push_decimal(&mut text, latest.minor);
            text.push('.');
            push_decimal(&mut text, latest.patch);
        },
    }
    assert(text@ =~= colorized(*current, *latest));
    text
}

/// The version that an update from `current` is measured against: see
/// `baseline`.
fn baseline_of(current: &str) -> (r: Option<SemanticVersion>)
    ensures
        r == baseline(current@),
{
    match normalize(current) {
        Ok(version) => Some(version),
        Err(ParseError::Empty) => Some(SemanticVersion { major: 0, minor: 0, patch: 0 }),
        Err(ParseError::Malformed) => None,
    }
}

/// Shows the latest version of a package next to its current specifier, for
/// two specifiers that spell a version (the current one may also be without
/// any digit or dot, and then counts as `0.0.0`).
pub fn colorize_version(current_version: &str, latest_version: &str) -> (text: String)
    requires
        baseline(current_version@) is Some,
        normalized(latest_version@) is Ok,
    ensures
        text@ == colorized(baseline(current_version@)->0, normalized(latest_version@)->Ok_0),
{
    match (baseline_of(current_version), normalize(latest_version)) {
        (Some(current), Ok(latest)) => paint(&current, &latest),
        _ => unreached(),
    }
}

/// Shows the latest version of a package next to its current specifier,
/// as `colorize_version` does, where both spell a version; `None` where
/// one of them does not.
pub fn try_colorize_version(current_version: &str, latest_version: &str) -> (r: Option<String>)
    ensures
        match (baseline(current_version@), normalized(latest_version@)) {
            (Some(current), Ok(latest)) => r matches Some(text) && text@ == colorized(
                current,
                latest,
            ),
            _ => r is None,
        },
{
    match (baseline_of(current_version), normalize(latest_version)) {
        (Some(current), Ok(latest)) => Some(paint(&current, &latest)),
        _ => None,
    }
}

/// The short name of a dependency class.
pub open spec fn type_label(class: DependencyClass) -> Seq<char> {
    match class {
        DependencyClass::Dev => "dev"@,
        DependencyClass::Peer => "peer"@,
        DependencyClass::Production => "prod"@,
    }
}

/// The short name of the class that the two flags of a package stand for.
pub fn package_type(is_dev: &bool, is_peer: &bool) -> (label: &'static str)
    ensures
        label@ == type_label(DependencyClass::of_flags(*is_dev, *is_peer)),
{
    if *is_dev {
        "dev"
    } else if *is_peer {
        "peer"
    } else {
        "prod"
    }
}

/// The line that offers an update: the package, its current specifier, the
/// latest version as it is shown, and the short name of its class.
pub open spec fn item_text(
    name: Seq<char>,
    current: Seq<char>,
    shown: Seq<char>,
    label: Seq<char>,
) -> Seq<char> {
    name + ": "@ + current + " -> "@ + shown + " ("@ + label + ")"@
}

/// The line that offers `candidate` to the user. The current specifier is
/// read from the dependency set of the candidate's class, `NOT_FOUND` where
/// the set does not declare the package. `None` where the latest version
/// cannot be shown: see `try_colorize_version`.
pub fn describe_candidate(candidate: &UpdateCandidate, doc: &serde_json::Value) -> (r: Option<
    String,
>)
    ensures
        ({
            let current = specifier_in(declared(*doc, candidate.class), candidate.name@);
            match (baseline(current), normalized(candidate.latest@)) {
                (Some(has), Ok(latest)) => r matches Some(line) && line@ == item_text(
                    candidate.name@,
                    current,
                    colorized(has, latest),
                    type_label(candidate.class),
                ),
                _ => r is None,
            }
        }),
{
    let current = match declared_specifier(doc, candidate.class, candidate.name.as_str()) {
        Some(text) => text,
        None => NOT_FOUND.to_owned(),
    };
    let shown = match try_colorize_version(current.as_str(), candidate.latest.as_str()) {
        Some(shown) => shown,
        None => {
            return None;
        },
    };
    let is_dev = candidate.class == DependencyClass::Dev;
    let is_peer = candidate.class == DependencyClass::Peer;
    let mut line = candidate.name.clone();
    line.append(": ");
    line.append(current.as_str());
    line.append(" -> ");
    line.append(shown.as_str());
    line.append(" (");
    line.append(package_type(&is_dev, &is_peer));
    line.append(")");
    Some(line)
}

/// The place of a severity when updates are listed, most severe first.
pub open spec fn rank_of(severity: Severity) -> int {
    match severity {
        Severity::Major => 1,
        Severity::Minor => 2,
        Severity::Patch => 3,
        Severity::Unchanged => 4,
    }
}

impl Severity {
    /// The place of this severity when updates are listed: 1 for major, 2
    /// for minor, 3 for patch, 4 for none.
    pub fn rank(&self) -> (r: i32)
        ensures
            r == rank_of(*self),
    {
        match self {
            Severity::Major => 1,
            Severity::Minor => 2,
            Severity::Patch => 3,
            Severity::Unchanged => 4,
        }
    }
}

/// The place of an update from the specifier `current` to the version
/// `latest`: that of its severity where both spell a version (a specifier
/// without digits counting as `0.0.0`), and 4, the last place, where the
/// severity is not known.
pub open spec fn update_rank(current: Seq<char>, latest: Seq<char>) -> int {
    match (baseline(current), normalized(latest)) {
        (Some(has), Ok(offered)) => rank_of(severity_of(has, offered)),
        _ => 4,
    }
}

/// The place of a candidate when updates are listed, most severe first:
/// see `update_rank`. The current specifier is read from the dependency set
/// of the candidate's class.
pub fn rank(candidate: &UpdateCandidate, doc: &serde_json::Value) -> (r: i32)
    ensures
        r == update_rank(
            specifier_in(declared(*doc, candidate.class), candidate.name@),
            candidate.latest@,
        ),
{
    let current = match declared_specifier(doc, candidate.class, candidate.name.as_str()) {
        Some(text) => text,
        None => NOT_FOUND.to_owned(),
    };
    match (baseline_of(current.as_str()), normalize(candidate.latest.as_str())) {
        (Some(has), Ok(offered)) => classify_severity(&has, &offered).rank(),
        _ => 4,
    }
}

/// The place of a shown update, read off its severity tag: 1 for
/// `(major)`, 2 for `(minor)`, 3 for `(patch)`, 4 for a text without a tag.
pub open spec fn ranking_of(shown: Seq<char>) -> int {
    if occurs_in(shown, "(major)"@) {
        1
    } else if occurs_in(shown, "(minor)"@) {
        2
    } else if occurs_in(shown, "(patch)"@) {
        3
    } else {
        4
    }
}

/// The place of a shown update when updates are listed: see `ranking_of`.
pub fn package_ranking(package: &str) -> (r: i32)
    ensures
        r == ranking_of(package@),
{
    if contains(package, "(major)") {
        1
    } else if contains(package, "(minor)") {
        2
    } else if contains(package, "(patch)") {
        3
    } else {
        4
    }
}

/// A text that holds no opening bracket.
pub open spec fn bracket_free(text: Seq<char>) -> bool {
    forall|i: int| 0 <= i < text.len() ==> text[i] != '('
}

/// A number written in decimal holds no opening bracket.
proof fn lemma_decimal_is_bracket_free(n: nat)
    ensures
        bracket_free(decimal(n)),
{
    lemma_decimal_spells(n);
    assert forall|i: int| 0 <= i < decimal(n).len() implies decimal(n)[i] != '(' by {
        assert(is_digit(decimal(n)[i]));
    }
}

/// In a text that has one tag `(word)` and no other opening bracket, the
/// tag `(other)` stands exactly if `other` is `word`.
proof fn lemma_one_tag(head: Seq<char>, word: Seq<char>, tail: Seq<char>, other: Seq<char>)
    requires
        bracket_free(head),
        bracket_free(word),
        bracket_free(tail),
        word.len() == other.len(),
    ensures
        occurs_in(
            head + seq![' ', '('] + word + seq![')'] + tail,
            seq!['('] + other + seq![')'],
        ) <==> word == other,
{
    let text = head + seq![' ', '('] + word + seq![')'] + tail;
    let tag = seq!['('] + other + seq![')'];
    let at = head.len() + 1;
    assert forall|i: int| 0 <= i < text.len() && text[i] == '(' implies i == at by {
        if i < head.len() {
            assert(text[i] == head[i]);
        } else if i >= head.len() + 2 && i < head.len() + 2 + word.len() {
            assert(text[i] == word[i - head.len() - 2]);
        } else if i >= head.len() + 3 + word.len() {
            assert(text[i] == tail[i - head.len() - 3 - word.len()]);
        }
    }
    if word == other {
        assert forall|k: int| 0 <= k < tag.len() implies text[at + k] == tag[k] by {
            if 1 <= k <= word.len() {
                assert(text[at + k] == word[k - 1]);
            }
        }
        assert(occurs_at(text, tag, at as int));
    }
    if occurs_in(text, tag) {
        let found = choose|found: int| occurs_at(text, tag, found);
        assert(text[found + 0] == tag[0]);
        assert(found == at);
        assert forall|k: int| 0 <= k < word.len() implies word[k] == other[k] by {
            assert(text[found + (k + 1)] == tag[k + 1]);
            assert(text[at + k + 1] == word[k]);
        }
        assert(word =~= other);
    }
}

/// A text without an opening bracket holds no tag.
proof fn lemma_no_tag(text: Seq<char>, other: Seq<char>)
    requires
        bracket_free(text),
    ensures
        !occurs_in(text, seq!['('] + other + seq![')']),
{
    let tag = seq!['('] + other + seq![')'];
    if occurs_in(text, tag) {
        let found = choose|found: int| occurs_at(text, tag, found);
        assert(text[found + 0] == tag[0]);
    }
}

/// The tag of a shown update gives the place of its severity: reading the
/// place off the text that `colorized` writes agrees with `rank_of`.
pub proof fn lemma_ranking_reads_the_severity(current: SemanticVersion, latest: SemanticVersion)
    ensures
        ranking_of(colorized(current, latest)) == rank_of(severity_of(current, latest)),
{
    let major = decimal(latest.major as nat);
    let minor = decimal(latest.minor as nat);
    let patch = decimal(latest.patch as nat);
    lemma_decimal_is_bracket_free(latest.major as nat);
    lemma_decimal_is_bracket_free(latest.minor as nat);
    lemma_decimal_is_bracket_free(latest.patch as nat);
    let dot = seq!['.'];
    let word_major = seq!['m', 'a', 'j', 'o', 'r'];
    let word_minor = seq!['m', 'i', 'n', 'o', 'r'];
    let word_patch = seq!['p', 'a', 't', 'c', 'h'];
    reveal_strlit("(major)");
    reveal_strlit("(minor)");
    reveal_strlit("(patch)");
    reveal_strlit(" (major)");
    reveal_strlit(" (minor)");
    reveal_strlit(" (patch)");
    reveal_strlit("\x1b[31m");
    reveal_strlit("\x1b[33m");
    reveal_strlit("\x1b[32m");
    reveal_strlit("\x1b[0m");
    assert("(major)"@ =~= seq!['('] + word_major + seq![')']);
    assert("(minor)"@ =~= seq!['('] + word_minor + seq![')']);
    assert("(patch)"@ =~= seq!['('] + word_patch + seq![')']);
    assert(word_major[1] != word_minor[1]);
    assert(word_major[0] != word_patch[0]);
    assert(word_minor[0] != word_patch[0]);
    assert(bracket_free(RESET@));
    let shown = colorized(current, latest);
    match severity_of(current, latest) {
        Severity::Major => {
            let head = MAJOR@ + major + dot + minor + dot + patch;
            assert(bracket_free(head));
            assert(shown =~= head + seq![' ', '('] + word_major + seq![')'] + RESET@);
            lemma_one_tag(head, word_major, RESET@, word_major);
        },
        Severity::Minor => {
            let head = major + dot + MINOR@ + minor + dot + patch;
            assert(bracket_free(head));
            assert(shown =~= head + seq![' ', '('] + word_minor + seq![')'] + RESET@);
            lemma_one_tag(head, word_minor, RESET@, word_major);
            lemma_one_tag(head, word_minor, RESET@, word_minor);
        },
        Severity::Patch => {
            let head = major + dot + minor + dot + PATCH@ + patch;
            assert(bracket_free(head));
            assert(shown =~= head + seq![' ', '('] + word_patch + seq![')'] + RESET@);
            lemma_one_tag(head, word_patch, RESET@, word_major);
            lemma_one_tag(head, word_patch, RESET@, word_minor);
            lemma_one_tag(head, word_patch, RESET@, word_patch);
        },
        Severity::Unchanged => {
            assert(bracket_free(shown));
            lemma_no_tag(shown, word_major);
            lemma_no_tag(shown, word_minor);
            lemma_no_tag(shown, word_patch);
        },
    }
}

} // verus!
