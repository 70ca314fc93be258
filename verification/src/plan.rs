//! A whole run over entries that have been read already: one action per
//! entry, the two counts, and what holds of every run.

use vstd::prelude::*;
use crate::integrity::{classify, verdict, Content, ContentView};
use crate::path::{lemma_join_then_relative, relative};
use crate::sweep::{
    is_candidate, resolved, screened, Action, ActionView, Config, ConfigView, Counters, Entry,
    EntryKind, EntryView, Sweep, SweepError,
};

verus! {

/// An entry of the tree together with what reading it gave. The content of an
/// entry that is no candidate is never looked at.
#[derive(Clone, Debug, PartialEq, Eq)]
pub struct Found {
    pub entry: Entry,
    pub content: Content,
}

/// The view of a [`Found`].
pub struct FoundView {
    pub entry: EntryView,
    pub content: ContentView,
}

impl View for Found {
    type V = FoundView;

    open spec fn view(&self) -> FoundView {
        FoundView { entry: self.entry@, content: self.content@ }
    }
}

/// What a run did: its counters, and for each entry, in the order in which
/// the entries were given, the action taken.
#[derive(Clone, Debug, PartialEq, Eq)]
pub struct Report {
    pub counters: Counters,
    pub actions: Vec<Action>,
}

/// The views of a sequence of entries.
pub open spec fn found_views(found: Seq<Found>) -> Seq<FoundView> {
    found.map_values(|f: Found| f@)
}

/// The views of a sequence of actions.
pub open spec fn action_views(actions: Seq<Action>) -> Seq<ActionView> {
    actions.map_values(|a: Action| a@)
}

/// What is done with one entry: nothing if it is no candidate, else what its
/// classification calls for. The error is that of a candidate outside the
/// input root.
pub open spec fn decision(config: ConfigView, found: FoundView) -> Result<ActionView, SweepError> {
    match screened(config, found.entry) {
        Err(e) => Err(e),
        Ok(None) => Ok(ActionView::Ignore),
        Ok(Some(rel)) => Ok(resolved(config, rel, verdict(found.content))),
    }
}

/// What a run does with the entries `found`: one action for each, unless one
/// of them stops the run.
pub open spec fn plan(config: ConfigView, found: Seq<FoundView>) -> Result<
    Seq<ActionView>,
    SweepError,
> {
    if forall|i: int| 0 <= i < found.len() ==> (#[trigger] decision(config, found[i])) is Ok {
        Ok(Seq::new(found.len(), |i: int| decision(config, found[i]).unwrap()))
    } else {
        Err(SweepError::OutsideRoot)
    }
}

/// The actions that count a file as valid.
pub open spec fn kept() -> spec_fn(ActionView) -> bool {
    |a: ActionView| a is Keep
}

/// The actions that count a file as invalid.
pub open spec fn rejected() -> spec_fn(ActionView) -> bool {
    |a: ActionView| a is Copy || a is Announce
}

/// The entries that are candidates.
pub open spec fn candidate() -> spec_fn(FoundView) -> bool {
    |f: FoundView| is_candidate(f.entry)
}

/// How many files the actions count as valid.
pub open spec fn valid_in(actions: Seq<ActionView>) -> nat {
    actions.filter(kept()).len()
}

/// How many files the actions count as invalid.
pub open spec fn invalid_in(actions: Seq<ActionView>) -> nat {
    actions.filter(rejected()).len()
}

/// How many of the entries are candidates.
pub open spec fn candidates_in(found: Seq<FoundView>) -> nat {
    found.filter(candidate()).len()
}

proof fn lemma_counts_of_none()
    ensures
        valid_in(Seq::<ActionView>::empty()) == 0,
        invalid_in(Seq::<ActionView>::empty()) == 0,
        candidates_in(Seq::<FoundView>::empty()) == 0,
{
    Seq::<ActionView>::empty().lemma_filter_len(kept());
    Seq::<ActionView>::empty().lemma_filter_len(rejected());
    Seq::<FoundView>::empty().lemma_filter_len(candidate());
}

proof fn lemma_counts_of_one_more(actions: Seq<ActionView>, action: ActionView)
    ensures
        valid_in(actions.push(action)) == valid_in(actions) + if action is Keep {
            1nat
        } else {
            0nat
        },
        invalid_in(actions.push(action)) == invalid_in(actions) + if action is Copy
            || action is Announce {
            1nat
        } else {
            0nat
        },
{
    actions.lemma_filter_len_push(kept(), action);
    actions.lemma_filter_len_push(rejected(), action);
}

proof fn lemma_plan_of_one_more(config: ConfigView, found: Seq<FoundView>, last: FoundView)
    ensures
        plan(config, found.push(last)) is Ok <==> plan(config, found) is Ok && decision(
            config,
            last,
        ) is Ok,
        plan(config, found.push(last)) is Ok ==> plan(config, found.push(last)).unwrap() == plan(
            config,
            found,
        ).unwrap().push(decision(config, last).unwrap()),
{
    let more = found.push(last);
    assert forall|i: int| 0 <= i < found.len() implies more[i] == found[i] by {}
    assert(more[found.len() as int] == last);
    if plan(config, more) is Ok {
        assert forall|i: int| 0 <= i < found.len() implies (#[trigger] decision(
            config,
            found[i],
        )) is Ok by {
            assert(decision(config, more[i]) is Ok);
        }
        assert(decision(config, more[found.len() as int]) is Ok);
        assert(plan(config, more).unwrap() =~= plan(config, found).unwrap().push(
            decision(config, last).unwrap(),
        ));
    }
    if plan(config, found) is Ok && decision(config, last) is Ok {
        assert forall|i: int| 0 <= i < more.len() implies (#[trigger] decision(
            config,
            more[i],
        )) is Ok by {
            if i < found.len() {
                assert(decision(config, found[i]) is Ok);
            }
        }
    }
}

/// In every run that comes to its end, the files counted as valid and those
/// counted as invalid are together as many as the candidates among the
/// entries: each candidate is counted once, and nothing else is.
pub proof fn lemma_counts_cover_candidates(config: ConfigView, found: Seq<FoundView>)
    requires
        plan(config, found) is Ok,
    ensures
        valid_in(plan(config, found).unwrap()) + invalid_in(plan(config, found).unwrap())
            == candidates_in(found),
    decreases found.len(),
{
    if found.len() == 0 {
        assert(plan(config, found).unwrap() =~= Seq::<ActionView>::empty());
        assert(found =~= Seq::<FoundView>::empty());
        lemma_counts_of_none();
    } else {
        let init = found.drop_last();
        let last = found.last();
        assert(found =~= init.push(last));
        lemma_plan_of_one_more(config, init, last);
        lemma_counts_cover_candidates(config, init);
        lemma_counts_of_one_more(plan(config, init).unwrap(), decision(config, last).unwrap());
        init.lemma_filter_len_push(candidate(), last);
    }
}

/// Outside a dry run, each candidate that is invalid is copied to the path
/// under the output root that it has under the input root.
pub proof fn lemma_invalid_is_mirrored(config: ConfigView, found: Seq<FoundView>, i: int)
    requires
        plan(config, found) is Ok,
        !config.dry_run,
        0 <= i < found.len(),
        is_candidate(found[i].entry),
        verdict(found[i].content) is Invalid,
    ensures
        relative(found[i].entry.path, config.input_root) is Some,
        plan(config, found).unwrap()[i] == (ActionView::Copy {
            target: config.output_root + relative(
                found[i].entry.path,
                config.input_root,
            ).unwrap(),
        }),
        relative(plan(config, found).unwrap()[i]->Copy_target, config.output_root) == relative(
            found[i].entry.path,
            config.input_root,
        ),
{
    assert(decision(config, found[i]) is Ok);
    lemma_join_then_relative(
        config.output_root,
        relative(found[i].entry.path, config.input_root).unwrap(),
    );
}

/// A dry run copies nothing: each invalid candidate is only announced, at the
/// path that it would have been copied to.
pub proof fn lemma_dry_run_copies_nothing(config: ConfigView, found: Seq<FoundView>, i: int)
    requires
        plan(config, found) is Ok,
        config.dry_run,
        0 <= i < found.len(),
    ensures
        !(plan(config, found).unwrap()[i] is Copy),
        is_candidate(found[i].entry) && verdict(found[i].content) is Invalid ==> plan(
            config,
            found,
        ).unwrap()[i] == (ActionView::Announce {
            target: config.output_root + relative(
                found[i].entry.path,
                config.input_root,
            ).unwrap(),
        }),
{
    assert(decision(config, found[i]) is Ok);
}

/// Whatever the settings, only an invalid candidate is ever copied: a valid
/// file is kept where it is, and an entry that is no candidate is ignored.
pub proof fn lemma_only_invalid_is_copied(config: ConfigView, found: Seq<FoundView>, i: int)
    requires
        plan(config, found) is Ok,
        0 <= i < found.len(),
    ensures
        plan(config, found).unwrap()[i] is Copy ==> is_candidate(found[i].entry) && verdict(
            found[i].content,
        ) is Invalid,
        is_candidate(found[i].entry) && verdict(found[i].content) is Valid ==> plan(
            config,
            found,
        ).unwrap()[i] is Keep,
        !is_candidate(found[i].entry) ==> plan(config, found).unwrap()[i] is Ignore,
{
    assert(decision(config, found[i]) is Ok);
}

/// Two runs over the same entries from the same input root come to their end
/// together and count alike, wherever they copy to and whether or not they
/// are dry runs.
pub proof fn lemma_counts_repeat(first: ConfigView, second: ConfigView, found: Seq<FoundView>)
    requires
        first.input_root == second.input_root,
    ensures
        plan(first, found) is Ok <==> plan(second, found) is Ok,
        plan(first, found) is Ok ==> valid_in(plan(first, found).unwrap()) == valid_in(
            plan(second, found).unwrap(),
        ) && invalid_in(plan(first, found).unwrap()) == invalid_in(plan(second, found).unwrap()),
    decreases found.len(),
{
    if found.len() == 0 {
        assert(plan(first, found).unwrap() =~= Seq::<ActionView>::empty());
        assert(plan(second, found).unwrap() =~= Seq::<ActionView>::empty());
    } else {
        let init = found.drop_last();
        let last = found.last();
        assert(found =~= init.push(last));
        lemma_plan_of_one_more(first, init, last);
        lemma_plan_of_one_more(second, init, last);
        lemma_counts_repeat(first, second, init);
        if plan(first, found) is Ok {
            lemma_counts_of_one_more(plan(first, init).unwrap(), decision(first, last).unwrap());
            lemma_counts_of_one_more(plan(second, init).unwrap(), decision(second, last).unwrap());
        }
    }
}

/// An entry that is not a regular file is ignored, a symbolic link among
/// them, whatever its name and whatever it points to.
pub proof fn lemma_only_files_are_candidates(config: ConfigView, found: FoundView)
    requires
        found.entry.kind != EntryKind::File,
    ensures
        decision(config, found) == Ok::<ActionView, SweepError>(ActionView::Ignore),
{
}

/// Runs over entries that have been read already: screens each entry,
/// classifies the candidates and settles them, in the order given. Stops at
/// the first candidate that lies outside the input root. The candidates must
/// be no more than the counters can count.
pub fn sweep_all(config: Config, found: &Vec<Found>) -> (r: Result<Report, SweepError>)
    requires
        candidates_in(found_views(found@)) <= u32::MAX,
    ensures
        match r {
            Ok(report) => {
                &&& plan(config@, found_views(found@)) == Ok::<Seq<ActionView>, SweepError>(
                    action_views(report.actions@),
                )
                &&& report.counters.valid_count() == valid_in(action_views(report.actions@))
                &&& report.counters.invalid_count() == invalid_in(action_views(report.actions@))
                &&& report.counters.total_count() == candidates_in(found_views(found@))
            },
            Err(e) => plan(config@, found_views(found@)) == Err::<Seq<ActionView>, SweepError>(e),
        },
{
    let ghost settings = config@;
    let ghost all = found_views(found@);
    let mut sweep = Sweep::new(config);
    let mut actions: Vec<Action> = Vec::new();
    let n = found.len();
    let mut i: usize = 0;
    proof {
        lemma_counts_of_none();
        assert(action_views(actions@) =~= Seq::<ActionView>::empty());
        assert(all.take(0) =~= Seq::<FoundView>::empty());
    }
    while i < n
        invariant
            n == found@.len(),
            candidates_in(all) <= u32::MAX,
            all == found_views(found@),
            i <= n,
            settings == config@,
            sweep.config@ == settings,
            actions@.len() == i,
            forall|j: int|
                0 <= j < i ==> (#[trigger] decision(settings, all[j])) == Ok::<
                    ActionView,
                    SweepError,
                >(actions@[j]@),
            sweep.counters.valid_count() == valid_in(action_views(actions@)),
            sweep.counters.invalid_count() == invalid_in(action_views(actions@)),
            sweep.counters.total_count() == candidates_in(all.take(i as int)),
        decreases n - i,
    {
        let item = &found[i];
        assert(all[i as int] == item@);
        proof {
            assert(all.take(i + 1) =~= all.take(i as int).push(all[i as int]));
            all.take(i as int).lemma_filter_len_push(candidate(), all[i as int]);
            all.lemma_filter_take_len(candidate(), i + 1);
        }
        let action = match sweep.screen(&item.entry) {
            Err(e) => {
                assert(decision(settings, all[i as int]) is Err);
                return Err(e);
            },
            Ok(None) => Action::Ignore,
            Ok(Some(rel)) => {
                let outcome = classify(&item.content);
                sweep.settle(&rel, &outcome)
            },
        };
        proof {
            assert(decision(settings, all[i as int]) == Ok::<ActionView, SweepError>(action@));
            lemma_counts_of_one_more(action_views(actions@), action@);
            assert(action_views(actions@.push(action)) =~= action_views(actions@).push(action@));
        }
        actions.push(action);
        i += 1;
    }
    proof {
        assert forall|j: int| 0 <= j < all.len() implies (#[trigger] decision(
            settings,
            all[j],
        )) is Ok by {}
        assert(plan(settings, all).unwrap() =~= action_views(actions@));
        lemma_counts_cover_candidates(settings, all);
    }
    Ok(Report { counters: sweep.counters, actions })
}

} // verus!
