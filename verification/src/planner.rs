//! Which of the fetched packages are worth an update: the outcomes of the
//! registry lookups, joined against what the manifest declares.

use crate::manifest::{
    class_of, classify_package, declared, declared_specifier, specifier_in, DependencyClass,
    NOT_FOUND,
};
use crate::version::{
    is_version_char, is_wildcard, normalize, normalized, stripped, version_chars, ParseError,
    SemanticVersion,
};
use vstd::prelude::*;

verus! {

/// What came of asking the registry for one package.
#[derive(Clone, Debug, PartialEq, Eq)]
pub enum FetchOutcome {
    /// The registry answered; `latest` is the version it names, or
    /// `NOT_FOUND` where its answer names none.
    Fetched { name: String, latest: String },
    /// The lookup failed; `reason` says how.
    Failed { name: String, reason: String },
}

/// A fetch outcome with its strings as sequences of characters.
pub enum OutcomeView {
    Fetched { name: Seq<char>, latest: Seq<char> },
    Failed { name: Seq<char>, reason: Seq<char> },
}

impl View for FetchOutcome {
    type V = OutcomeView;

    open spec fn view(&self) -> OutcomeView {
        match *self {
            FetchOutcome::Fetched { name, latest } => OutcomeView::Fetched {
                name: name@,
                latest: latest@,
            },
            FetchOutcome::Failed { name, reason } => OutcomeView::Failed {
                name: name@,
                reason: reason@,
            },
        }
    }
}

impl DeepView for FetchOutcome {
    type V = OutcomeView;

    open spec fn deep_view(&self) -> OutcomeView {
        self@
    }
}

/// A package that can be updated, the version to update it to, and the
/// dependency set that declares it.
#[derive(Clone, Debug, PartialEq, Eq)]
pub struct UpdateCandidate {
    pub name: String,
    pub latest: String,
    pub class: DependencyClass,
}

/// An update candidate with its strings as sequences of characters.
pub struct CandidateView {
    pub name: Seq<char>,
    pub latest: Seq<char>,
    pub class: DependencyClass,
}

impl View for UpdateCandidate {
    type V = CandidateView;

    open spec fn view(&self) -> CandidateView {
        CandidateView { name: self.name@, latest: self.latest@, class: self.class }
    }
}

impl DeepView for UpdateCandidate {
    type V = CandidateView;

    open spec fn deep_view(&self) -> CandidateView {
        self@
    }
}

/// Whether a package with specifier `current` is to be updated to `latest`:
/// where both normalise, if `latest` is the newer version; where one does
/// not, only if `current` is the wildcard and the caller updates wildcards.
pub open spec fn is_update(current: Seq<char>, latest: Seq<char>, update_any: bool) -> bool {
    match (normalized(current), normalized(latest)) {
        (Ok(has), Ok(offered)) => offered.newer_than(has),
        _ => is_wildcard(current) && update_any,
    }
}

/// Decides whether a package is to be updated: see `is_update`.
pub fn needs_update(current: &str, latest: &str, update_any: bool) -> (r: bool)
    ensures
        r == is_update(current@, latest@, update_any),
{
    match (normalize(current), normalize(latest)) {
        (Ok(has), Ok(offered)) => offered.is_newer_than(&has),
        _ => {
            proof {
                reveal_strlit("*");
                assert("*"@ =~= seq!['*']);
            }
            current.eq("*") && update_any
        },
    }
}

/// The candidate that one outcome gives rise to, if any. A failed lookup
/// gives none. A fetched package is classed by the name lists, its specifier
/// is read from the dependency set of that class, and it is a candidate if
/// `is_update` says so.
pub open spec fn candidate_for(
    outcome: OutcomeView,
    doc: serde_json::Value,
    dev_names: Seq<Seq<char>>,
    peer_names: Seq<Seq<char>>,
    update_any: bool,
) -> Option<CandidateView> {
    match outcome {
        OutcomeView::Fetched { name, latest } => {
            let class = class_of(name, dev_names, peer_names);
            let current = specifier_in(declared(doc, class), name);
            if is_update(current, latest, update_any) {
                Some(CandidateView { name, latest, class })
            } else {
                None
            }
        },
        OutcomeView::Failed { .. } => None,
    }
}

/// `candidate_for` as a function of the outcome alone.
pub open spec fn decision(
    doc: serde_json::Value,
    dev_names: Seq<Seq<char>>,
    peer_names: Seq<Seq<char>>,
    update_any: bool,
) -> spec_fn(OutcomeView) -> Option<CandidateView> {
    |outcome: OutcomeView| candidate_for(outcome, doc, dev_names, peer_names, update_any)
}

/// The plan for a run: the candidates of the outcomes, in the order of the
/// outcomes.
pub open spec fn planned(
    outcomes: Seq<OutcomeView>,
    doc: serde_json::Value,
    dev_names: Seq<Seq<char>>,
    peer_names: Seq<Seq<char>>,
    update_any: bool,
) -> Seq<CandidateView> {
    outcomes.filter_map(decision(doc, dev_names, peer_names, update_any))
}

/// Decides on one outcome: see `candidate_for`.
pub fn plan_one(
    outcome: &FetchOutcome,
    doc: &serde_json::Value,
    dev_names: &Vec<String>,
    peer_names: &Vec<String>,
    update_any: bool,
) -> (r: Option<UpdateCandidate>)
    ensures
        r.deep_view() == candidate_for(
            outcome@,
            *doc,
            dev_names.deep_view(),
            peer_names.deep_view(),
            update_any,
        ),
{
    match outcome {
        FetchOutcome::Fetched { name, latest } => {
            let class = classify_package(name.as_str(), dev_names, peer_names);
            let current = match declared_specifier(doc, class, name.as_str()) {
                Some(text) => text,
                None => NOT_FOUND.to_owned(),
            };
            if needs_update(current.as_str(), latest.as_str(), update_any) {
                Some(UpdateCandidate { name: name.clone(), latest: latest.clone(), class })
            } else {
                None
            }
        },
        FetchOutcome::Failed { .. } => None,
    }
}

/// Plans the updates of a run: for every outcome, in order, the candidate
/// that it gives rise to, if any.
pub fn plan_updates(
    outcomes: &Vec<FetchOutcome>,
    doc: &serde_json::Value,
    dev_names: &Vec<String>,
    peer_names: &Vec<String>,
    update_any: bool,
) -> (plan: Vec<UpdateCandidate>)
    ensures
        plan.deep_view() == planned(
            outcomes.deep_view(),
            *doc,
            dev_names.deep_view(),
            peer_names.deep_view(),
            update_any,
        ),
{
    let mut plan: Vec<UpdateCandidate> = Vec::new();
    let ghost decide = decision(*doc, dev_names.deep_view(), peer_names.deep_view(), update_any);
    let mut i: usize = 0;
    assert(plan.deep_view() =~= outcomes.deep_view().take(0).filter_map(decide));
    while i < outcomes.len()
        invariant
            i <= outcomes.len(),
            decide == decision(*doc, dev_names.deep_view(), peer_names.deep_view(), update_any),
            plan.deep_view() == outcomes.deep_view().take(i as int).filter_map(decide),
        decreases outcomes.len() - i,
    {
        let ghost before = plan.deep_view();
        proof {
            outcomes.deep_view().lemma_filter_map_take_succ(decide, i as int);
        }
        match plan_one(&outcomes[i], doc, dev_names, peer_names, update_any) {
            Some(candidate) => {
                plan.push(candidate);
                assert(plan.deep_view() =~= before + seq![candidate@]);
            },
            None => {},
        }
        i += 1;
    }
    assert(outcomes.deep_view().take(outcomes.len() as int) == outcomes.deep_view());
    plan
}

/// The candidates of `plan` whose position is among `selected`, in the
/// order of the plan.
pub open spec fn selection(plan: Seq<CandidateView>, selected: Seq<usize>) -> Seq<CandidateView>
    decreases plan.len(),
{
    if plan.len() == 0 {
        Seq::empty()
    } else {
        let front = selection(plan.drop_last(), selected);
        if selected.contains((plan.len() - 1) as usize) {
            front.push(plan.last())
        } else {
            front
        }
    }
}

fn is_selected(selected: &Vec<usize>, index: usize) -> (r: bool)
    ensures
        r == selected@.contains(index),
{
    let mut i: usize = 0;
    while i < selected.len()
        invariant
            i <= selected.len(),
            forall|k: int| 0 <= k < i ==> selected@[k] != index,
        decreases selected.len() - i,
    {
        if selected[i] == index {
            return true;
        }
        i += 1;
    }
    false
}

/// The candidates that the user picked: those of `plan` whose position is
/// among `selected`, each once and in the order of the plan. A position
/// beyond the plan picks nothing.
pub fn select_candidates(plan: &Vec<UpdateCandidate>, selected: &Vec<usize>) -> (chosen: Vec<
    UpdateCandidate,
>)
    ensures
        chosen.deep_view() == selection(plan.deep_view(), selected@),
{
    let mut chosen: Vec<UpdateCandidate> = Vec::new();
    let mut i: usize = 0;
    assert(plan.deep_view().take(0) =~= Seq::<CandidateView>::empty());
    while i < plan.len()
        invariant
            i <= plan.len(),
            chosen.deep_view() == selection(plan.deep_view().take(i as int), selected@),
        decreases plan.len() - i,
    {
        let ghost before = chosen.deep_view();
        proof {
            let next = plan.deep_view().take(i + 1);
            assert(next.drop_last() =~= plan.deep_view().take(i as int));
            assert(next.last() == plan[i as int]@);
            assert(next.len() - 1 == i);
        }
        if is_selected(selected, i) {
            let candidate = UpdateCandidate {
                name: plan[i].name.clone(),
                latest: plan[i].latest.clone(),
                class: plan[i].class,
            };
            chosen.push(candidate);
            assert(chosen.deep_view() =~= before.push(candidate@));
        }
        i += 1;
    }
    assert(plan.deep_view().take(plan.len() as int) == plan.deep_view());
    chosen
}

/// The wildcard normalises to no version.
pub proof fn lemma_wildcard_has_no_version(current: Seq<char>)
    requires
        is_wildcard(current),
    ensures
        normalized(current) == Err::<SemanticVersion, ParseError>(ParseError::Empty),
{
    reveal_with_fuel(Seq::filter, 2);
    assert(current.drop_last() =~= Seq::<char>::empty());
    assert(!is_version_char(current.last()));
    assert(stripped(current) =~= Seq::<char>::empty());
}

/// A package declared with the wildcard is updated exactly when the caller
/// updates wildcards, whatever version the registry names.
pub proof fn lemma_wildcard_follows_the_flag(
    current: Seq<char>,
    latest: Seq<char>,
    update_any: bool,
)
    requires
        is_wildcard(current),
    ensures
        is_update(current, latest, update_any) == update_any,
{
    lemma_wildcard_has_no_version(current);
}

/// The same of the decision on a fetched package: declared with the
/// wildcard it is never a candidate while wildcards are not updated, and
/// always one, with the version that was fetched, when they are.
pub proof fn lemma_wildcard_candidate(
    name: Seq<char>,
    latest: Seq<char>,
    doc: serde_json::Value,
    dev_names: Seq<Seq<char>>,
    peer_names: Seq<Seq<char>>,
)
    requires
        is_wildcard(specifier_in(declared(doc, class_of(name, dev_names, peer_names)), name)),
    ensures
        candidate_for(OutcomeView::Fetched { name, latest }, doc, dev_names, peer_names, false)
            is None,
        candidate_for(OutcomeView::Fetched { name, latest }, doc, dev_names, peer_names, true)
            == Some(CandidateView { name, latest, class: class_of(name, dev_names, peer_names) }),
{
    let current = specifier_in(declared(doc, class_of(name, dev_names, peer_names)), name);
    lemma_wildcard_follows_the_flag(current, latest, false);
    lemma_wildcard_follows_the_flag(current, latest, true);
}

/// What stands for a specifier that is not there is never updated.
pub proof fn lemma_sentinel_is_no_update(latest: Seq<char>, update_any: bool)
    ensures
        !is_update(NOT_FOUND@, latest, update_any),
{
    reveal_strlit("Version not found");
    let sentinel = NOT_FOUND@;
    assert(sentinel.len() == 17);
    assert forall|i: int| 0 <= i < sentinel.len() implies !version_chars()(sentinel[i]) by {}
    sentinel.lemma_all_neg_filter_empty(version_chars());
    assert(stripped(sentinel).len() == 0);
}

/// A candidate is a package that the manifest declares: the dependency set
/// of its class holds its name.
pub proof fn lemma_candidates_are_declared(
    outcome: OutcomeView,
    doc: serde_json::Value,
    dev_names: Seq<Seq<char>>,
    peer_names: Seq<Seq<char>>,
    update_any: bool,
)
    ensures
        candidate_for(outcome, doc, dev_names, peer_names, update_any) matches Some(candidate)
            ==> declared(doc, candidate.class).contains_key(candidate.name),
{
    if let OutcomeView::Fetched { name, latest } = outcome {
        lemma_sentinel_is_no_update(latest, update_any);
    }
}

/// Where no outcome gives rise to a candidate, the plan is empty.
pub proof fn lemma_nothing_to_update(
    outcomes: Seq<OutcomeView>,
    doc: serde_json::Value,
    dev_names: Seq<Seq<char>>,
    peer_names: Seq<Seq<char>>,
    update_any: bool,
)
    requires
        forall|i: int|
            0 <= i < outcomes.len() ==> candidate_for(
                #[trigger] outcomes[i],
                doc,
                dev_names,
                peer_names,
                update_any,
            ) is None,
    ensures
        planned(outcomes, doc, dev_names, peer_names, update_any) == Seq::<CandidateView>::empty(),
    decreases outcomes.len(),
{
    if outcomes.len() > 0 {
        let front = outcomes.drop_last();
        assert forall|i: int| 0 <= i < front.len() implies candidate_for(
            #[trigger] front[i],
            doc,
            dev_names,
            peer_names,
            update_any,
        ) is None by {
            assert(front[i] == outcomes[i]);
        }
        lemma_nothing_to_update(front, doc, dev_names, peer_names, update_any);
        assert(candidate_for(outcomes.last(), doc, dev_names, peer_names, update_any) is None);
    }
}

/// A plan holds the candidates of its outcomes and nothing else: a
/// candidate is in the plan exactly if one of the outcomes gives rise to
/// it. So a failed lookup never shows in a plan.
pub proof fn lemma_plan_members(
    outcomes: Seq<OutcomeView>,
    doc: serde_json::Value,
    dev_names: Seq<Seq<char>>,
    peer_names: Seq<Seq<char>>,
    update_any: bool,
    candidate: CandidateView,
)
    ensures
        planned(outcomes, doc, dev_names, peer_names, update_any).contains(candidate)
            <==> exists|i: int|
            0 <= i < outcomes.len() && candidate_for(
                #[trigger] outcomes[i],
                doc,
                dev_names,
                peer_names,
                update_any,
            ) == Some(candidate),
    decreases outcomes.len(),
{
    let plan = planned(outcomes, doc, dev_names, peer_names, update_any);
    if outcomes.len() > 0 {
        let front = outcomes.drop_last();
        let plan_front = planned(front, doc, dev_names, peer_names, update_any);
        let last = candidate_for(outcomes.last(), doc, dev_names, peer_names, update_any);
        lemma_plan_members(front, doc, dev_names, peer_names, update_any, candidate);
        if plan.contains(candidate) {
            let k = choose|k: int| 0 <= k < plan.len() && plan[k] == candidate;
            if k < plan_front.len() {
                assert(plan_front[k] == candidate);
                assert(plan_front.contains(candidate));
                let i = choose|i: int|
                    0 <= i < front.len() && candidate_for(
                        #[trigger] front[i],
                        doc,
                        dev_names,
                        peer_names,
                        update_any,
                    ) == Some(candidate);
                assert(outcomes[i] == front[i]);
            } else {
                assert(last == Some(candidate));
                assert(outcomes[outcomes.len() - 1] == outcomes.last());
            }
        }
        if exists|i: int|
            0 <= i < outcomes.len() && candidate_for(
                #[trigger] outcomes[i],
                doc,
                dev_names,
                peer_names,
                update_any,
            ) == Some(candidate) {
            let i = choose|i: int|
                0 <= i < outcomes.len() && candidate_for(
                    #[trigger] outcomes[i],
                    doc,
                    dev_names,
                    peer_names,
                    update_any,
                ) == Some(candidate);
            if i < front.len() {
                assert(front[i] == outcomes[i]);
                assert(plan_front.contains(candidate));
                let k = choose|k: int| 0 <= k < plan_front.len() && plan_front[k] == candidate;
                assert(plan[k] == candidate);
            } else {
                assert(outcomes[i] == outcomes.last());
                assert(plan[plan.len() - 1] == candidate);
            }
        }
    }
}

/// The wildcard rule, told of a whole plan. Take a fetched package that is
/// declared with the wildcard. While wildcards are not updated, no
/// candidate of the plan bears its name; when they are, the plan holds the
/// package with the version that was fetched, whatever that version is.
pub proof fn lemma_wildcard_in_plan(
    outcomes: Seq<OutcomeView>,
    doc: serde_json::Value,
    dev_names: Seq<Seq<char>>,
    peer_names: Seq<Seq<char>>,
    update_any: bool,
    at: int,
)
    requires
        0 <= at < outcomes.len(),
        outcomes[at] is Fetched,
        is_wildcard(
            specifier_in(
                declared(doc, class_of(outcomes[at]->Fetched_name, dev_names, peer_names)),
                outcomes[at]->Fetched_name,
            ),
        ),
    ensures
        update_any ==> planned(outcomes, doc, dev_names, peer_names, update_any).contains(
            CandidateView {
                name: outcomes[at]->Fetched_name,
                latest: outcomes[at]->Fetched_latest,
                class: class_of(outcomes[at]->Fetched_name, dev_names, peer_names),
            },
        ),
        !update_any ==> forall|k: int|
            0 <= k < planned(outcomes, doc, dev_names, peer_names, update_any).len() ==> (
            #[trigger] planned(outcomes, doc, dev_names, peer_names, update_any)[k]).name
                != outcomes[at]->Fetched_name,
{
    let name = outcomes[at]->Fetched_name;
    let latest = outcomes[at]->Fetched_latest;
    let class = class_of(name, dev_names, peer_names);
    let plan = planned(outcomes, doc, dev_names, peer_names, update_any);
    lemma_wildcard_candidate(name, latest, doc, dev_names, peer_names);
    if update_any {
        let candidate = CandidateView { name, latest, class };
        lemma_plan_members(outcomes, doc, dev_names, peer_names, update_any, candidate);
        assert(candidate_for(outcomes[at], doc, dev_names, peer_names, update_any) == Some(
            candidate,
        ));
    } else {
        assert forall|k: int| 0 <= k < plan.len() implies (#[trigger] plan[k]).name != name by {
            lemma_plan_members(outcomes, doc, dev_names, peer_names, update_any, plan[k]);
            assert(plan.contains(plan[k]));
            let i = choose|i: int|
                0 <= i < outcomes.len() && candidate_for(
                    #[trigger] outcomes[i],
                    doc,
                    dev_names,
                    peer_names,
                    update_any,
                ) == Some(plan[k]);
            if plan[k].name == name {
                let other = outcomes[i]->Fetched_latest;
                lemma_wildcard_candidate(name, other, doc, dev_names, peer_names);
            }
        }
    }
}

/// A plan has at most one candidate per outcome.
pub proof fn lemma_plan_is_no_longer(
    outcomes: Seq<OutcomeView>,
    doc: serde_json::Value,
    dev_names: Seq<Seq<char>>,
    peer_names: Seq<Seq<char>>,
    update_any: bool,
)
    ensures
        planned(outcomes, doc, dev_names, peer_names, update_any).len() <= outcomes.len(),
    decreases outcomes.len(),
{
    if outcomes.len() > 0 {
        lemma_plan_is_no_longer(outcomes.drop_last(), doc, dev_names, peer_names, update_any);
    }
}

} // verus!
