//! The write-back of a source's batch: all of it or nothing, and the time
//! of the run only after the records.

use vstd::prelude::*;
use crate::error::EleanorError;
use crate::library::{upserted_all, Song, SongView};

verus! {

/// What indexing one candidate came to: a record, nothing for a file that
/// was passed over, or the reason why the file could not be indexed.
pub type Outcome = Result<Option<Song>, EleanorError>;

/// The first failure among the outcomes of a batch, if there is one.
pub open spec fn first_failure(outcomes: Seq<Outcome>) -> Option<EleanorError>
    decreases outcomes.len(),
{
    if outcomes.len() == 0 {
        None
    } else {
        match outcomes[0] {
            Err(error) => Some(error),
            Ok(_) => first_failure(outcomes.skip(1)),
        }
    }
}

/// The records among the outcomes of a batch, in their order.
pub open spec fn records(outcomes: Seq<Outcome>) -> Seq<Song>
    decreases outcomes.len(),
{
    if outcomes.len() == 0 {
        Seq::empty()
    } else {
        match outcomes[0] {
            Ok(Some(song)) => seq![song] + records(outcomes.skip(1)),
            _ => records(outcomes.skip(1)),
        }
    }
}

/// Gathers the records of a batch. One file that failed fails the batch:
/// no record is handed on then, and the first failure is reported.
pub fn collect(outcomes: Vec<Outcome>) -> (gathered: Result<Vec<Song>, EleanorError>)
    ensures
        match first_failure(outcomes@) {
            Some(error) => gathered == Err::<Vec<Song>, EleanorError>(error),
            None => match gathered {
                Ok(songs) => songs@ == records(outcomes@),
                Err(_) => false,
            },
        },
{
    let ghost all = outcomes@;
    let mut songs: Vec<Song> = Vec::new();
    assert(all.skip(0) =~= all);
    assert(songs@ + records(all) =~= records(all));
    for outcome in it: outcomes
        invariant
            it.seq() == all,
            first_failure(all) == first_failure(all.skip(it.index() as int)),
            records(all) == songs@ + records(all.skip(it.index() as int)),
    {
        let ghost rest = all.skip(it.index() as int);
        assert(rest[0] == outcome);
        assert(rest.skip(1) =~= all.skip(it.index() + 1));
        match outcome {
            Ok(Some(song)) => {
                assert(songs@.push(song) + records(rest.skip(1)) =~= songs@ + (seq![song]
                    + records(rest.skip(1))));
                songs.push(song);
            },
            Ok(None) => {},
            Err(error) => {
                return Err(error);
            },
        }
    }
    assert(all.skip(all.len() as int) =~= Seq::<Outcome>::empty());
    assert(records(all) =~= songs@);
    Ok(songs)
}

/// What whoever runs the index of a source has to do next.
#[derive(Debug)]
pub enum Action {
    /// Write these records to the catalog, each by its checksum, and say
    /// how the store answered.
    Upsert(Vec<Song>),
    /// Set the source's time of last run to the present, and say how the
    /// store answered.
    Stamp,
    /// Nothing: the run is over, and this is how it ended.
    Done(Result<(), EleanorError>),
}

/// What an `Action` holds.
pub enum ActionView {
    Upsert(Seq<Song>),
    Stamp,
    Done(Result<(), EleanorError>),
}

impl View for Action {
    type V = ActionView;

    open spec fn view(&self) -> ActionView {
        match self {
            Action::Upsert(songs) => ActionView::Upsert(songs@),
            Action::Stamp => ActionView::Stamp,
            Action::Done(end) => ActionView::Done(*end),
        }
    }
}

/// How far the write-back of a source's batch has come.
#[derive(Clone, Copy, Debug)]
pub enum Phase {
    /// The records are with the store.
    Writing,
    /// The records are in; the time of the run is with the store.
    Stamping,
    /// The run is over.
    Over(Result<(), EleanorError>),
}

/// The write-back of one source's batch: the records first, the time of
/// the run only once they are in, and nothing at all after a failure.
#[derive(Debug)]
pub struct IndexRun {
    phase: Phase,
}

impl View for IndexRun {
    type V = Phase;

    closed spec fn view(&self) -> Phase {
        self.phase
    }
}

/// How a run starts: a batch with a failure is over at once, a batch
/// without records goes straight to the time of the run, any other batch
/// has its records written.
pub open spec fn opening(outcomes: Seq<Outcome>) -> (Phase, ActionView) {
    match first_failure(outcomes) {
        Some(error) => (Phase::Over(Err(error)), ActionView::Done(Err(error))),
        None => if records(outcomes).len() == 0 {
            (Phase::Stamping, ActionView::Stamp)
        } else {
            (Phase::Writing, ActionView::Upsert(records(outcomes)))
        },
    }
}

/// How a run goes on when the store has answered: a refusal ends it, and
/// so does the time of the run once it is written.
pub open spec fn advanced(phase: Phase, answer: Result<(), EleanorError>) -> (Phase, ActionView) {
    match phase {
        Phase::Writing => match answer {
            Ok(_) => (Phase::Stamping, ActionView::Stamp),
            Err(error) => (Phase::Over(Err(error)), ActionView::Done(Err(error))),
        },
        Phase::Stamping => match answer {
            Ok(_) => (Phase::Over(Ok(())), ActionView::Done(Ok(()))),
            Err(error) => (Phase::Over(Err(error)), ActionView::Done(Err(error))),
        },
        Phase::Over(end) => (phase, ActionView::Done(end)),
    }
}

impl IndexRun {
    /// Starts the write-back of a batch from the outcomes of its files.
    pub fn begin(outcomes: Vec<Outcome>) -> (started: (IndexRun, Action))
        ensures
            (started.0@, started.1@) == opening(outcomes@),
    {
        match collect(outcomes) {
            Err(error) => (IndexRun { phase: Phase::Over(Err(error)) }, Action::Done(Err(error))),
            Ok(songs) => if songs.len() == 0 {
                (IndexRun { phase: Phase::Stamping }, Action::Stamp)
            } else {
                (IndexRun { phase: Phase::Writing }, Action::Upsert(songs))
            },
        }
    }

    /// Takes the store's answer to the last action and says what is next.
    pub fn advance(&mut self, answer: Result<(), EleanorError>) -> (action: Action)
        ensures
            (final(self)@, action@) == advanced(old(self)@, answer),
    {
        let (phase, action) = match self.phase {
            Phase::Writing => match answer {
                Ok(()) => (Phase::Stamping, Action::Stamp),
                Err(error) => (Phase::Over(Err(error)), Action::Done(Err(error))),
            },
            Phase::Stamping => match answer {
                Ok(()) => (Phase::Over(Ok(())), Action::Done(Ok(()))),
                Err(error) => (Phase::Over(Err(error)), Action::Done(Err(error))),
            },
            Phase::Over(end) => (Phase::Over(end), Action::Done(end)),
        };
        self.phase = phase;
        action
    }
}

/// The actions of a run from `phase` on, one for each answer of the store.
pub open spec fn actions(phase: Phase, answers: Seq<Result<(), EleanorError>>) -> Seq<ActionView>
    decreases answers.len(),
{
    if answers.len() == 0 {
        Seq::empty()
    } else {
        let (next, action) = advanced(phase, answers[0]);
        seq![action] + actions(next, answers.skip(1))
    }
}

/// Every action of a whole run: the one it starts with, then one for each
/// answer of the store.
pub open spec fn run(outcomes: Seq<Outcome>, answers: Seq<Result<(), EleanorError>>) -> Seq<
    ActionView,
> {
    seq![opening(outcomes).1] + actions(opening(outcomes).0, answers)
}

/// A run that is over stays over, whatever the store answers.
pub proof fn lemma_over_is_final(
    end: Result<(), EleanorError>,
    answers: Seq<Result<(), EleanorError>>,
    i: int,
)
    requires
        0 <= i < answers.len(),
    ensures
        actions(Phase::Over(end), answers).len() == answers.len(),
        actions(Phase::Over(end), answers)[i] == ActionView::Done(end),
    decreases answers.len(),
{
    lemma_one_action_per_answer(Phase::Over(end), answers);
    if i > 0 {
        lemma_over_is_final(end, answers.skip(1), i - 1);
    }
}

/// A run issues one action for each answer.
pub proof fn lemma_one_action_per_answer(phase: Phase, answers: Seq<Result<(), EleanorError>>)
    ensures
        actions(phase, answers).len() == answers.len(),
    decreases answers.len(),
{
    if answers.len() > 0 {
        lemma_one_action_per_answer(advanced(phase, answers[0]).0, answers.skip(1));
    }
}

/// A run is over after two answers of the store at the latest: from its
/// third action on it only says how it ended.
pub proof fn lemma_run_ends(
    outcomes: Seq<Outcome>,
    answers: Seq<Result<(), EleanorError>>,
    i: int,
)
    requires
        2 <= i < run(outcomes, answers).len(),
    ensures
        run(outcomes, answers)[i] is Done,
{
    let (phase, first) = opening(outcomes);
    lemma_one_action_per_answer(phase, answers);
    let (second_phase, second) = advanced(phase, answers[0]);
    let later = answers.skip(1);
    lemma_one_action_per_answer(second_phase, later);
    assert(run(outcomes, answers)[i] == actions(second_phase, later)[i - 2]);
    let (third_phase, third) = advanced(second_phase, later[0]);
    if i > 2 {
        assert(actions(second_phase, later)[i - 2] == actions(third_phase, later.skip(1))[i - 3]);
        lemma_over_is_final(third_phase->Over_0, later.skip(1), i - 3);
    }
}

/// One file that fails, fails the batch: no record is written and the time
/// of the last run is left as it was, whatever the store would answer.
pub proof fn lemma_failed_batch_writes_nothing(
    outcomes: Seq<Outcome>,
    answers: Seq<Result<(), EleanorError>>,
    i: int,
)
    requires
        first_failure(outcomes) is Some,
        0 <= i < run(outcomes, answers).len(),
    ensures
        run(outcomes, answers)[i] == ActionView::Done(Err(first_failure(outcomes)->0)),
{
    lemma_one_action_per_answer(opening(outcomes).0, answers);
    if i > 0 {
        lemma_over_is_final(Err(first_failure(outcomes)->0), answers, i - 1);
    }
}

/// The time of the last run is written only once all is well: no file
/// failed, and the store has taken the records if there were any.
pub proof fn lemma_stamp_only_after_records(
    outcomes: Seq<Outcome>,
    answers: Seq<Result<(), EleanorError>>,
    i: int,
)
    requires
        0 <= i < run(outcomes, answers).len(),
        run(outcomes, answers)[i] is Stamp,
    ensures
        first_failure(outcomes) is None,
        records(outcomes).len() == 0 ==> i == 0,
        records(outcomes).len() > 0 ==> i == 1 && run(outcomes, answers)[0] == ActionView::Upsert(
            records(outcomes),
        ) && answers[0] is Ok,
{
    let (phase, first) = opening(outcomes);
    lemma_one_action_per_answer(phase, answers);
    if i > 0 {
        let (second_phase, second) = advanced(phase, answers[0]);
        let later = answers.skip(1);
        lemma_one_action_per_answer(second_phase, later);
        assert(run(outcomes, answers)[i] == actions(phase, answers)[i - 1]);
        if i > 1 {
            assert(actions(phase, answers)[i - 1] == actions(second_phase, later)[i - 2]);
            let (third_phase, third) = advanced(second_phase, later[0]);
            if i > 2 {
                assert(actions(second_phase, later)[i - 2] == actions(third_phase, later.skip(1))[i
                    - 3]);
                assert(third_phase is Over);
                lemma_over_is_final(third_phase->Over_0, later.skip(1), i - 3);
            }
        }
        match phase {
            Phase::Over(end) => lemma_over_is_final(end, answers, i - 1),
            _ => {},
        }
    }
}

/// What a run finds and leaves in the store: the catalog, and the time of
/// the source's last run.
pub struct Store {
    pub catalog: Map<i32, SongView>,
    pub last_indexed: Option<i64>,
}

/// The views of a row of records.
pub open spec fn views(songs: Seq<Song>) -> Seq<SongView> {
    songs.map_values(|song: Song| song@)
}

/// The store after an action that it has answered. What the store refuses
/// changes nothing; records are written one after the other, each by its
/// checksum; the time of the run becomes `now`.
pub open spec fn performed(
    store: Store,
    action: ActionView,
    answer: Result<(), EleanorError>,
    now: i64,
) -> Store {
    match (action, answer) {
        (ActionView::Upsert(songs), Ok(_)) => Store {
            catalog: upserted_all(store.catalog, views(songs)),
            last_indexed: store.last_indexed,
        },
        (ActionView::Stamp, Ok(_)) => Store { catalog: store.catalog, last_indexed: Some(now) },
        _ => store,
    }
}

/// The store after a run has gone on from `phase` with `action`, each
/// action answered by the store in turn.
pub open spec fn played(
    store: Store,
    phase: Phase,
    action: ActionView,
    answers: Seq<Result<(), EleanorError>>,
    now: i64,
) -> Store
    decreases answers.len(),
{
    if answers.len() == 0 {
        store
    } else {
        let (next, order) = advanced(phase, answers[0]);
        played(performed(store, action, answers[0], now), next, order, answers.skip(1), now)
    }
}

/// The store after a whole run over the outcomes of a batch.
pub open spec fn store_after(
    store: Store,
    outcomes: Seq<Outcome>,
    answers: Seq<Result<(), EleanorError>>,
    now: i64,
) -> Store {
    played(store, opening(outcomes).0, opening(outcomes).1, answers, now)
}

/// A run that is over changes the store no more.
pub proof fn lemma_over_changes_nothing(
    store: Store,
    end: Result<(), EleanorError>,
    answers: Seq<Result<(), EleanorError>>,
    now: i64,
)
    ensures
        played(store, Phase::Over(end), ActionView::Done(end), answers, now) == store,
    decreases answers.len(),
{
    if answers.len() > 0 {
        lemma_over_changes_nothing(store, end, answers.skip(1), now);
    }
}

/// A batch with a file that failed leaves the store exactly as it was:
/// no record is written, and the time of the last run stays.
pub proof fn lemma_failed_batch_leaves_the_store(
    store: Store,
    outcomes: Seq<Outcome>,
    answers: Seq<Result<(), EleanorError>>,
    now: i64,
)
    requires
        first_failure(outcomes) is Some,
    ensures
        store_after(store, outcomes, answers, now) == store,
{
    lemma_over_changes_nothing(store, Err(first_failure(outcomes)->0), answers, now);
}

/// A run writes all of a batch or nothing of it, and it moves the time of
/// the last run only to `now` and only when all of the batch is in the
/// catalog and no file failed.
pub proof fn lemma_all_or_nothing(
    store: Store,
    outcomes: Seq<Outcome>,
    answers: Seq<Result<(), EleanorError>>,
    now: i64,
)
    ensures
        ({
            let end = store_after(store, outcomes, answers, now);
            let written = upserted_all(store.catalog, views(records(outcomes)));
            &&& end.catalog == store.catalog || end.catalog == written
            &&& end.last_indexed == store.last_indexed || end.last_indexed == Some(now)
            &&& end.last_indexed != store.last_indexed ==> first_failure(outcomes) is None
                && end.catalog == written
        }),
{
    let (phase, first) = opening(outcomes);
    let written = upserted_all(store.catalog, views(records(outcomes)));
    let end = store_after(store, outcomes, answers, now);
    if records(outcomes).len() == 0 {
        assert(views(records(outcomes)) =~= Seq::<SongView>::empty());
        assert(written == store.catalog);
    }
    match phase {
        Phase::Over(over) => {
            lemma_over_changes_nothing(store, over, answers, now);
        },
        _ => {
            if answers.len() > 0 {
                let (second_phase, second) = advanced(phase, answers[0]);
                let after_first = performed(store, first, answers[0], now);
                let later = answers.skip(1);
                assert(end == played(after_first, second_phase, second, later, now));
                match second_phase {
                    Phase::Over(over) => {
                        lemma_over_changes_nothing(after_first, over, later, now);
                    },
                    _ => {
                        if later.len() > 0 {
                            let (third_phase, third) = advanced(second_phase, later[0]);
                            let after_second = performed(after_first, second, later[0], now);
                            assert(end == played(
                                after_second,
                                third_phase,
                                third,
                                later.skip(1),
                                now,
                            ));
                            lemma_over_changes_nothing(
                                after_second,
                                third_phase->Over_0,
                                later.skip(1),
                                now,
                            );
                        }
                    },
                }
            }
        },
    }
}

/// A run that meets no failure and no refusal leaves the catalog with all
/// of the batch in it and the time of the last run at `now`.
pub proof fn lemma_good_run_writes_the_batch(
    store: Store,
    outcomes: Seq<Outcome>,
    answers: Seq<Result<(), EleanorError>>,
    now: i64,
)
    requires
        first_failure(outcomes) is None,
        answers.len() >= 2,
        answers[0] is Ok,
        answers[1] is Ok,
    ensures
        store_after(store, outcomes, answers, now) == (Store {
            catalog: upserted_all(store.catalog, views(records(outcomes))),
            last_indexed: Some(now),
        }),
{
    let (phase, first) = opening(outcomes);
    let (second_phase, second) = advanced(phase, answers[0]);
    let after_first = performed(store, first, answers[0], now);
    let later = answers.skip(1);
    let end = store_after(store, outcomes, answers, now);
    assert(later[0] == answers[1]);
    assert(end == played(after_first, second_phase, second, later, now));
    if records(outcomes).len() == 0 {
        assert(views(records(outcomes)) =~= Seq::<SongView>::empty());
        lemma_over_changes_nothing(after_first, Ok(()), later, now);
    } else {
        let (third_phase, third) = advanced(second_phase, later[0]);
        let after_second = performed(after_first, second, later[0], now);
        assert(end == played(after_second, third_phase, third, later.skip(1), now));
        lemma_over_changes_nothing(after_second, Ok(()), later.skip(1), now);
    }
}

} // verus!
