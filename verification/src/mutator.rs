//! Writing chosen updates back into the manifest.

use crate::json::{json_strings, member_path, put_string_in};
use crate::manifest::{declared, declared_specifier, section_name, DependencyClass};
use crate::planner::{
    candidate_for, lemma_candidates_are_declared, lemma_plan_members, planned,
    CandidateView, OutcomeView, UpdateCandidate,
};
use crate::version::{get_version_range, is_version_char, lemma_range_kept, range_prefix};
use vstd::prelude::*;
use vstd::string::StringExecFns;

verus! {

/// The specifier to write for a package whose specifier is `current` and
/// whose new version is `latest`: the version behind the range notation of
/// `current`, or the version alone where the notation is not kept.
pub open spec fn new_specifier(current: Seq<char>, latest: Seq<char>, preserve_range: bool) -> Seq<
    char,
> {
    if preserve_range {
        range_prefix(current) + latest
    } else {
        latest
    }
}

/// The strings of a manifest after one update: the specifier of `name` in
/// the dependency set of `class` is replaced by the new one, and nothing
/// else changes. A package that the set does not declare is left alone.
pub open spec fn applied(
    strings: Map<Seq<Seq<char>>, Seq<char>>,
    class: DependencyClass,
    name: Seq<char>,
    latest: Seq<char>,
    preserve_range: bool,
) -> Map<Seq<Seq<char>>, Seq<char>> {
    let path = member_path(section_name(class), name);
    if strings.contains_key(path) {
        strings.insert(path, new_specifier(strings[path], latest, preserve_range))
    } else {
        strings
    }
}

/// The strings of a manifest after a list of updates, applied in order.
pub open spec fn applied_all(
    strings: Map<Seq<Seq<char>>, Seq<char>>,
    chosen: Seq<CandidateView>,
    preserve_range: bool,
) -> Map<Seq<Seq<char>>, Seq<char>>
    decreases chosen.len(),
{
    if chosen.len() == 0 {
        strings
    } else {
        let last = chosen.last();
        applied(
            applied_all(strings, chosen.drop_last(), preserve_range),
            last.class,
            last.name,
            last.latest,
            preserve_range,
        )
    }
}

/// How many of the candidates in `chosen` find their package declared when
/// their turn comes.
pub open spec fn applied_count(
    strings: Map<Seq<Seq<char>>, Seq<char>>,
    chosen: Seq<CandidateView>,
    preserve_range: bool,
) -> nat
    decreases chosen.len(),
{
    if chosen.len() == 0 {
        0
    } else {
        let last = chosen.last();
        let before = applied_all(strings, chosen.drop_last(), preserve_range);
        applied_count(strings, chosen.drop_last(), preserve_range) + if before.contains_key(
            member_path(section_name(last.class), last.name),
        ) {
            1nat
        } else {
            0nat
        }
    }
}

/// Sets the specifier of `package`, in the dependency set that the two flags
/// select, to `version` behind the range notation of the specifier that the
/// set declares now. Where the set does not declare the package, the
/// manifest stays as it is.
pub fn set_new_package_version(
    package: &str,
    version: &str,
    is_dev: bool,
    is_peer: bool,
    json_data: &mut serde_json::Value,
)
    ensures
        json_strings(*final(json_data)) == applied(
            json_strings(*old(json_data)),
            DependencyClass::of_flags(is_dev, is_peer),
            package@,
            version@,
            true,
        ),
        declared(*old(json_data), DependencyClass::of_flags(is_dev, is_peer)).contains_key(
            package@,
        ) ==> declared(*final(json_data), DependencyClass::of_flags(is_dev, is_peer))[package@]
            == range_prefix(
            declared(*old(json_data), DependencyClass::of_flags(is_dev, is_peer))[package@],
        ) + version@,
        !declared(*old(json_data), DependencyClass::of_flags(is_dev, is_peer)).contains_key(
            package@,
        ) ==> *final(json_data) == *old(json_data),
{
    let class = DependencyClass::from_flags(is_dev, is_peer);
    match declared_specifier(json_data, class, package) {
        Some(current) => {
            let mut text = get_version_range(current.as_str());
            text.append(version);
            put_string_in(json_data, class.section(), package, text.as_str());
        },
        None => {},
    }
}

/// Applies one candidate: where the dependency set of its class declares
/// the package, the specifier there becomes the new one and the result is
/// `true`; where it does not, the manifest stays as it is and the result is
/// `false`.
pub fn apply_candidate(
    doc: &mut serde_json::Value,
    candidate: &UpdateCandidate,
    preserve_range: bool,
) -> (done: bool)
    ensures
        done == declared(*old(doc), candidate.class).contains_key(candidate.name@),
        json_strings(*final(doc)) == applied(
            json_strings(*old(doc)),
            candidate.class,
            candidate.name@,
            candidate.latest@,
            preserve_range,
        ),
        done ==> declared(*final(doc), candidate.class)[candidate.name@] == new_specifier(
            declared(*old(doc), candidate.class)[candidate.name@],
            candidate.latest@,
            preserve_range,
        ),
        !done ==> *final(doc) == *old(doc),
{
    let class = candidate.class;
    match declared_specifier(doc, class, candidate.name.as_str()) {
        Some(_) => {
            if preserve_range {
                set_new_package_version(
                    candidate.name.as_str(),
                    candidate.latest.as_str(),
                    class == DependencyClass::Dev,
                    class == DependencyClass::Peer,
                    doc,
                );
            } else {
                put_string_in(
                    doc,
                    class.section(),
                    candidate.name.as_str(),
                    candidate.latest.as_str(),
                );
            }
            true
        },
        None => false,
    }
}

/// Applies the chosen candidates in order and says how many of them found
/// their package declared. With nothing chosen the manifest stays as it is.
pub fn apply_candidates(
    doc: &mut serde_json::Value,
    chosen: &Vec<UpdateCandidate>,
    preserve_range: bool,
) -> (count: usize)
    ensures
        json_strings(*final(doc)) == applied_all(
            json_strings(*old(doc)),
            chosen.deep_view(),
            preserve_range,
        ),
        count == applied_count(json_strings(*old(doc)), chosen.deep_view(), preserve_range),
        chosen.len() == 0 ==> *final(doc) == *old(doc),
{
    let mut count: usize = 0;
    let mut i: usize = 0;
    while i < chosen.len()
        invariant
            i <= chosen.len(),
            count <= i,
            i == 0 ==> *doc == *old(doc),
            json_strings(*doc) == applied_all(
                json_strings(*old(doc)),
                chosen.deep_view().take(i as int),
                preserve_range,
            ),
            count == applied_count(
                json_strings(*old(doc)),
                chosen.deep_view().take(i as int),
                preserve_range,
            ),
        decreases chosen.len() - i,
    {
        proof {
            let next = chosen.deep_view().take(i + 1);
            assert(next.drop_last() == chosen.deep_view().take(i as int));
            assert(next.last() == chosen[i as int]@);
        }
        if apply_candidate(doc, &chosen[i], preserve_range) {
            count += 1;
        }
        i += 1;
    }
    assert(chosen.deep_view().take(chosen.len() as int) == chosen.deep_view());
    count
}

/// Applying an update a second time changes nothing more, as long as the
/// new version is written bare (it begins with a digit or a dot) wherever
/// range notation is kept. Without range notation this holds of every
/// version.
pub proof fn lemma_apply_is_idempotent(
    strings: Map<Seq<Seq<char>>, Seq<char>>,
    class: DependencyClass,
    name: Seq<char>,
    latest: Seq<char>,
    preserve_range: bool,
)
    requires
        preserve_range ==> latest.len() > 0 && is_version_char(latest[0]),
    ensures
        applied(
            applied(strings, class, name, latest, preserve_range),
            class,
            name,
            latest,
            preserve_range,
        ) == applied(strings, class, name, latest, preserve_range),
{
    let path = member_path(section_name(class), name);
    if strings.contains_key(path) {
        let current = strings[path];
        let once = new_specifier(current, latest, preserve_range);
        if preserve_range {
            lemma_range_kept(current, latest);
        }
        assert(new_specifier(once, latest, preserve_range) == once);
        let first = applied(strings, class, name, latest, preserve_range);
        assert(first.insert(path, once) =~= first);
    }
}

/// The three dependency sets stand under three different keys.
pub proof fn lemma_sections_differ(a: DependencyClass, b: DependencyClass)
    ensures
        section_name(a) == section_name(b) <==> a == b,
{
    reveal_strlit("dependencies");
    reveal_strlit("devDependencies");
    reveal_strlit("peerDependencies");
    assert(section_name(DependencyClass::Production).len() == 12);
    assert(section_name(DependencyClass::Dev).len() == 15);
    assert(section_name(DependencyClass::Peer).len() == 16);
}

/// An update touches one entry of one dependency set. Every other package,
/// and the same package in another set, keeps its specifier, and no entry
/// comes or goes.
pub proof fn lemma_apply_touches_one_entry(
    strings: Map<Seq<Seq<char>>, Seq<char>>,
    class: DependencyClass,
    name: Seq<char>,
    latest: Seq<char>,
    preserve_range: bool,
    other_class: DependencyClass,
    other_name: Seq<char>,
)
    requires
        other_class != class || other_name != name,
    ensures
        applied(strings, class, name, latest, preserve_range).dom() == strings.dom(),
        applied(strings, class, name, latest, preserve_range)[member_path(
            section_name(other_class),
            other_name,
        )] == strings[member_path(section_name(other_class), other_name)],
{
    let path = member_path(section_name(class), name);
    let other = member_path(section_name(other_class), other_name);
    lemma_sections_differ(class, other_class);
    assert(path != other) by {
        if path == other {
            assert(path[0] == other[0]);
            assert(path[1] == other[1]);
        }
    }
    if strings.contains_key(path) {
        let written = new_specifier(strings[path], latest, preserve_range);
        assert(strings.insert(path, written).dom() =~= strings.dom());
    }
}

/// Updates keep the entries of a manifest in place: after any list of
/// updates it declares the packages that it declared before. And where
/// every chosen candidate is declared, every one of them is written.
pub proof fn lemma_applied_all_keeps_entries(
    strings: Map<Seq<Seq<char>>, Seq<char>>,
    chosen: Seq<CandidateView>,
    preserve_range: bool,
)
    ensures
        applied_all(strings, chosen, preserve_range).dom() == strings.dom(),
        (forall|i: int|
            0 <= i < chosen.len() ==> strings.contains_key(
                member_path(section_name(#[trigger] chosen[i].class), chosen[i].name),
            )) ==> applied_count(strings, chosen, preserve_range) == chosen.len(),
    decreases chosen.len(),
{
    if chosen.len() > 0 {
        let front = chosen.drop_last();
        let last = chosen.last();
        lemma_applied_all_keeps_entries(strings, front, preserve_range);
        let before = applied_all(strings, front, preserve_range);
        let path = member_path(section_name(last.class), last.name);
        if before.contains_key(path) {
            let written = new_specifier(before[path], last.latest, preserve_range);
            assert(before.insert(path, written).dom() =~= before.dom());
        }
        if forall|i: int|
            0 <= i < chosen.len() ==> strings.contains_key(
                member_path(section_name(#[trigger] chosen[i].class), chosen[i].name),
            ) {
            assert forall|i: int| 0 <= i < front.len() implies strings.contains_key(
                member_path(section_name(#[trigger] front[i].class), front[i].name),
            ) by {
                assert(front[i] == chosen[i]);
            }
            assert(chosen[chosen.len() - 1] == last);
            assert(strings.contains_key(path));
        }
    }
}

/// A plan is written whole: every candidate that the planner gives for a
/// manifest finds its package declared when the plan is applied to that
/// manifest.
pub proof fn lemma_plan_is_applied_whole(
    outcomes: Seq<OutcomeView>,
    doc: serde_json::Value,
    dev_names: Seq<Seq<char>>,
    peer_names: Seq<Seq<char>>,
    update_any: bool,
    preserve_range: bool,
)
    ensures
        applied_count(
            json_strings(doc),
            planned(outcomes, doc, dev_names, peer_names, update_any),
            preserve_range,
        ) == planned(outcomes, doc, dev_names, peer_names, update_any).len(),
{
    let plan = planned(outcomes, doc, dev_names, peer_names, update_any);
    assert forall|k: int| 0 <= k < plan.len() implies json_strings(doc).contains_key(
        member_path(section_name(#[trigger] plan[k].class), plan[k].name),
    ) by {
        lemma_plan_members(outcomes, doc, dev_names, peer_names, update_any, plan[k]);
        assert(plan.contains(plan[k]));
        let i = choose|i: int|
            0 <= i < outcomes.len() && candidate_for(
                #[trigger] outcomes[i],
                doc,
                dev_names,
                peer_names,
                update_any,
            ) == Some(plan[k]);
        lemma_candidates_are_declared(outcomes[i], doc, dev_names, peer_names, update_any);
        assert(declared(doc, plan[k].class).contains_key(plan[k].name));
    }
    lemma_applied_all_keeps_entries(json_strings(doc), plan, preserve_range);
}

} // verus!
