//! The transaction that writes one batch of configuration files: which
//! statement to run next, and what to do when one fails.
//!
//! The decisions are made here; running statements is left to the caller, who
//! reports each outcome and is told what to do next.

use vstd::prelude::*;
use vstd::string::*;
use crate::database::statement::{Statement, StatementView};
use crate::database::store::{
    statement_view, Checkout, CheckoutView, ConfigBatch, ConfigBatchView,
};

verus! {

/// What was being done when the store failed.
#[derive(Clone, Copy, Debug, PartialEq, Eq, Structural)]
pub enum FailedStep {
    /// The one statement that upserts repositories.
    Store,
    /// Opening the transaction.
    Open,
    /// The statement that upserts configuration files.
    Insert,
    /// The statement that stamps repositories as checked out.
    Update,
    /// Committing the transaction.
    Commit,
    /// Nothing of the store's: an outcome was reported that was not asked for.
    OutOfTurn,
}

/// What a [`StoreError`] holds.
pub struct StoreErrorView {
    pub step: FailedStep,
    pub cause: Seq<char>,
    pub rollback: Option<Seq<char>>,
}

/// A failure of the store, with its cause.
#[derive(Debug)]
pub struct StoreError {
    step: FailedStep,
    cause: String,
    rollback: Option<String>,
}

impl View for StoreError {
    type V = StoreErrorView;

    closed spec fn view(&self) -> StoreErrorView {
        StoreErrorView {
            step: self.step,
            cause: self.cause@,
            rollback: match self.rollback {
                Some(cause) => Some(cause@),
                None => None,
            },
        }
    }
}

impl Clone for StoreError {
    fn clone(&self) -> (copy: StoreError)
        ensures
            copy@ == self@,
    {
        StoreError {
            step: self.step,
            cause: self.cause.clone(),
            rollback: match &self.rollback {
                Some(cause) => Some(cause.clone()),
                None => None,
            },
        }
    }
}

/// The failure of `step` for `cause`.
pub open spec fn failure(step: FailedStep, cause: Seq<char>) -> StoreErrorView {
    StoreErrorView { step, cause, rollback: None }
}

/// What is said of an outcome that was not asked for.
pub open spec fn out_of_turn() -> StoreErrorView {
    failure(FailedStep::OutOfTurn, "an outcome was reported out of turn"@)
}

impl StoreError {
    /// The failure of `step` for `cause`.
    pub fn new(step: FailedStep, cause: String) -> (error: StoreError)
        ensures
            error@ == failure(step, cause@),
    {
        StoreError { step, cause, rollback: None }
    }

    fn out_of_turn() -> (error: StoreError)
        ensures
            error@ == out_of_turn(),
    {
        StoreError::new(
            FailedStep::OutOfTurn,
            String::from_str("an outcome was reported out of turn"),
        )
    }

    /// What was being done when the store failed.
    pub fn step(&self) -> (step: FailedStep)
        ensures
            step == self@.step,
    {
        self.step
    }

    /// What the store said.
    pub fn cause(&self) -> (cause: &str)
        ensures
            cause@ == self@.cause,
    {
        self.cause.as_str()
    }

    /// What the store said of the rollback, where that failed too.
    pub fn rollback(&self) -> (cause: Option<&str>)
        ensures
            match cause {
                Some(c) => self@.rollback == Some(c@),
                None => self@.rollback.is_none(),
            },
    {
        match &self.rollback {
            Some(cause) => Some(cause.as_str()),
            None => None,
        }
    }

    /// What failed, in a few words.
    pub fn context(&self) -> (text: &'static str)
        ensures
            text@ == context_of(self@),
    {
        if self.rollback.is_some() {
            return "Failed to rollback transaction";
        }
        match self.step {
            FailedStep::Store => "Failed to store in the database",
            FailedStep::Open => "Failed to open transaction",
            FailedStep::Insert => "Failed to store rustfmt.toml files in the database",
            FailedStep::Update => "Failed to store rustfmt.toml files in the database",
            FailedStep::Commit => "Failed to commit transaction",
            FailedStep::OutOfTurn => "Failed to follow the transaction",
        }
    }
}

/// What failed, in a few words.
pub open spec fn context_of(error: StoreErrorView) -> Seq<char> {
    if error.rollback.is_some() {
        "Failed to rollback transaction"@
    } else {
        match error.step {
            FailedStep::Store => "Failed to store in the database"@,
            FailedStep::Open => "Failed to open transaction"@,
            FailedStep::Insert => "Failed to store rustfmt.toml files in the database"@,
            FailedStep::Update => "Failed to store rustfmt.toml files in the database"@,
            FailedStep::Commit => "Failed to commit transaction"@,
            FailedStep::OutOfTurn => "Failed to follow the transaction"@,
        }
    }
}

/// The outcome of something that the store was asked to do: `None` where it
/// was done, the cause where it failed.
pub open spec fn outcome_view(outcome: Result<(), String>) -> Option<Seq<char>> {
    match outcome {
        Ok(_) => None,
        Err(cause) => Some(cause@),
    }
}

/// What is reported of storing repositories. `executed` is the outcome of the
/// one statement that upserts them, or `None` where there was no repository
/// and so no statement to run. With nothing to run, and with a statement that
/// ran, the repositories are stored; a statement that failed is reported with
/// its cause, and has left nothing behind.
pub fn store_in_db_outcome(executed: Option<Result<(), String>>) -> (outcome: Result<
    (),
    StoreError,
>)
    ensures
        match executed {
            None => outcome.is_ok(),
            Some(Ok(_)) => outcome.is_ok(),
            Some(Err(cause)) => outcome matches Err(error) && error@ == failure(
                FailedStep::Store,
                cause@,
            ),
        },
{
    match executed {
        None => Ok(()),
        Some(Ok(_)) => Ok(()),
        Some(Err(cause)) => Err(StoreError::new(FailedStep::Store, cause)),
    }
}

/// The phases of a transaction.
#[derive(Clone, Copy, Debug, PartialEq, Eq, Structural)]
pub enum Phase {
    /// The transaction is being opened.
    Open,
    /// Checkouts are added to the batch, and the batch is written.
    Accumulating,
    /// Every statement that the batch has ran; the transaction is being
    /// committed.
    Committing,
    /// The batch is in the store.
    Committed,
    /// Something failed; the transaction is being rolled back.
    Failing,
    /// Nothing of the batch is in the store.
    RolledBack,
}

/// What an [`Ingestion`] holds.
pub enum IngestionView {
    Open,
    Accumulating(ConfigBatchView),
    Inserting(Option<StatementView>),
    Updating,
    Committing,
    Committed,
    Failing(StoreErrorView),
    RolledBack(StoreErrorView),
}

/// What an [`IngestEvent`] holds.
pub enum IngestEventView {
    Opened(Option<Seq<char>>),
    Inspected(CheckoutView),
    EndOfInput,
    Executed(Option<Seq<char>>),
    CommitDone(Option<Seq<char>>),
    RollbackDone(Option<Seq<char>>),
}

/// What an [`IngestAction`] holds.
pub enum IngestActionView {
    Continue,
    Execute(StatementView),
    Commit,
    Rollback,
    Finish(Option<StoreErrorView>),
}

impl IngestActionView {
    /// The action writes to the store, or makes what was written lasting.
    pub open spec fn writes(self) -> bool {
        self is Execute || self is Commit
    }

    /// The action reports that the batch is in the store.
    pub open spec fn reports_success(self) -> bool {
        self == IngestActionView::Finish(None)
    }
}

impl IngestionView {
    /// The phase of the transaction.
    pub open spec fn phase(self) -> Phase {
        match self {
            IngestionView::Open => Phase::Open,
            IngestionView::Accumulating(_) => Phase::Accumulating,
            IngestionView::Inserting(_) => Phase::Accumulating,
            IngestionView::Updating => Phase::Accumulating,
            IngestionView::Committing => Phase::Committing,
            IngestionView::Committed => Phase::Committed,
            IngestionView::Failing(_) => Phase::Failing,
            IngestionView::RolledBack(_) => Phase::RolledBack,
        }
    }

    /// Something failed.
    pub open spec fn failed(self) -> bool {
        self is Failing || self is RolledBack
    }

    /// Where an outcome that was not asked for leads: a transaction that is
    /// open is rolled back; otherwise nothing changes.
    pub open spec fn out_of_turn(self) -> (IngestionView, IngestActionView) {
        match self {
            IngestionView::Open => (self, IngestActionView::Finish(Some(out_of_turn()))),
            IngestionView::Committed => (self, IngestActionView::Finish(None)),
            IngestionView::RolledBack(error) => (self, IngestActionView::Finish(Some(error))),
            IngestionView::Failing(_) => (self, IngestActionView::Rollback),
            _ => (IngestionView::Failing(out_of_turn()), IngestActionView::Rollback),
        }
    }

    /// Where the transaction goes on once the batch is complete, with the
    /// statements that are still to run: to the one for the rows if there is
    /// one, else to the one for the stamps if there is one, else to the commit.
    /// A statement that is not there is not asked for.
    pub open spec fn sealed(
        insert: Option<StatementView>,
        update: Option<StatementView>,
    ) -> (IngestionView, IngestActionView) {
        match insert {
            Some(rows) => (IngestionView::Inserting(update), IngestActionView::Execute(rows)),
            None => match update {
                Some(stamps) => (IngestionView::Updating, IngestActionView::Execute(stamps)),
                None => (IngestionView::Committing, IngestActionView::Commit),
            },
        }
    }

    /// The state that follows on an event, and what is to be done next.
    pub open spec fn step(self, event: IngestEventView) -> (IngestionView, IngestActionView) {
        match (self, event) {
            (IngestionView::Open, IngestEventView::Opened(None)) => (
                IngestionView::Accumulating(ConfigBatchView::empty()),
                IngestActionView::Continue,
            ),
            (IngestionView::Open, IngestEventView::Opened(Some(cause))) => (
                IngestionView::RolledBack(failure(FailedStep::Open, cause)),
                IngestActionView::Finish(Some(failure(FailedStep::Open, cause))),
            ),
            (IngestionView::Accumulating(batch), IngestEventView::Inspected(checkout)) => (
                IngestionView::Accumulating(batch.accumulate(checkout)),
                IngestActionView::Continue,
            ),
            (IngestionView::Accumulating(batch), IngestEventView::EndOfInput) => Self::sealed(
                batch.insert_statement(),
                batch.update_statement(),
            ),
            (IngestionView::Inserting(update), IngestEventView::Executed(None)) => Self::sealed(
                None,
                update,
            ),
            (IngestionView::Inserting(_), IngestEventView::Executed(Some(cause))) => (
                IngestionView::Failing(failure(FailedStep::Insert, cause)),
                IngestActionView::Rollback,
            ),
            (IngestionView::Updating, IngestEventView::Executed(None)) => (
                IngestionView::Committing,
                IngestActionView::Commit,
            ),
            (IngestionView::Updating, IngestEventView::Executed(Some(cause))) => (
                IngestionView::Failing(failure(FailedStep::Update, cause)),
                IngestActionView::Rollback,
            ),
            (IngestionView::Committing, IngestEventView::CommitDone(None)) => (
                IngestionView::Committed,
                IngestActionView::Finish(None),
            ),
            (IngestionView::Committing, IngestEventView::CommitDone(Some(cause))) => (
                IngestionView::RolledBack(failure(FailedStep::Commit, cause)),
                IngestActionView::Finish(Some(failure(FailedStep::Commit, cause))),
            ),
            (IngestionView::Failing(error), IngestEventView::RollbackDone(None)) => (
                IngestionView::RolledBack(error),
                IngestActionView::Finish(Some(error)),
            ),
            (IngestionView::Failing(error), IngestEventView::RollbackDone(Some(cause))) => (
                IngestionView::RolledBack(StoreErrorView { rollback: Some(cause), ..error }),
                IngestActionView::Finish(Some(StoreErrorView { rollback: Some(cause), ..error })),
            ),
            _ => self.out_of_turn(),
        }
    }

    /// What is to be done on each of the events, one after the other.
    pub open spec fn actions(self, events: Seq<IngestEventView>) -> Seq<IngestActionView>
        decreases events.len(),
    {
        if events.len() == 0 {
            Seq::empty()
        } else {
            seq![self.step(events[0]).1] + self.step(events[0]).0.actions(events.drop_first())
        }
    }
}

/// Once something has failed, the transaction stays failed whatever is
/// reported, and is never told to run a statement, to commit, or that the
/// batch is in the store.
pub proof fn lemma_failure_is_final(state: IngestionView, event: IngestEventView)
    requires
        state.failed(),
    ensures
        state.step(event).0.failed(),
        !state.step(event).1.writes(),
        !state.step(event).1.reports_success(),
{
}

/// After a failure nothing more is written: in whatever follows, no statement
/// is run, nothing is committed, and success is never reported.
pub proof fn lemma_nothing_is_written_after_failure(
    state: IngestionView,
    events: Seq<IngestEventView>,
)
    requires
        state.failed(),
    ensures
        state.actions(events).len() == events.len(),
        forall|i: int|
            0 <= i < events.len() ==> !(#[trigger] state.actions(events)[i]).writes()
                && !state.actions(events)[i].reports_success(),
    decreases events.len(),
{
    if events.len() > 0 {
        lemma_failure_is_final(state, events[0]);
        lemma_nothing_is_written_after_failure(state.step(events[0]).0, events.drop_first());
    }
}

/// A statement that fails is followed by a rollback and by nothing that
/// writes: where the insert fails, the update is never run and nothing is
/// committed, and the same holds where the update fails.
pub proof fn lemma_failed_statement_rolls_back(
    state: IngestionView,
    cause: Seq<char>,
    events: Seq<IngestEventView>,
)
    requires
        state is Inserting || state is Updating,
    ensures
        ({
            let all = seq![IngestEventView::Executed(Some(cause))] + events;
            &&& state.actions(all).len() == all.len()
            &&& state.actions(all)[0] == IngestActionView::Rollback
            &&& forall|i: int|
                0 <= i < all.len() ==> !(#[trigger] state.actions(all)[i]).writes()
                    && !state.actions(all)[i].reports_success()
        }),
{
    let first = IngestEventView::Executed(Some(cause));
    let all = seq![first] + events;
    assert(all[0] == first);
    assert(all.drop_first() =~= events);
    lemma_nothing_is_written_after_failure(state.step(first).0, events);
}

/// Success is reported only at the end of the one path on which everything
/// went well: the commit was under way and the store says that it is done.
pub proof fn lemma_success_needs_commit(state: IngestionView, event: IngestEventView)
    requires
        state.step(event).1.reports_success(),
    ensures
        (state is Committing && event == IngestEventView::CommitDone(None)) || state is Committed,
        state.step(event).0 is Committed,
{
}

/// The batch that the event completes, if it completes one.
pub open spec fn completed(state: IngestionView, event: IngestEventView) -> Option<
    ConfigBatchView,
> {
    match (state, event) {
        (IngestionView::Accumulating(batch), IngestEventView::EndOfInput) => Some(batch),
        _ => None,
    }
}

/// Nothing is asked for out of its order, and nothing that is not there.
///
/// A statement is run only when the batch is complete, and it is a statement
/// of the batch: the one for the rows first, if the batch has rows, and the
/// one for the stamps only when no statement for rows is left to run. A commit
/// is asked for only when no statement is left to run.
pub proof fn lemma_writes_in_order(state: IngestionView, event: IngestEventView)
    ensures
        state.step(event).1 is Commit ==> (event == IngestEventView::Executed(None) && (state
            is Updating || state == IngestionView::Inserting(None))) || (completed(
            state,
            event,
        ).is_some() && completed(state, event).unwrap().insert_statement().is_none()
            && completed(state, event).unwrap().update_statement().is_none()),
        state.step(event).1 is Execute ==> ({
            let statement = state.step(event).1->Execute_0;
            ||| (event == IngestEventView::Executed(None) && state == IngestionView::Inserting(
                Some(statement),
            ))
            ||| (completed(state, event).is_some() && completed(
                state,
                event,
            ).unwrap().insert_statement() == Some(statement))
            ||| (completed(state, event).is_some() && completed(
                state,
                event,
            ).unwrap().insert_statement().is_none() && completed(
                state,
                event,
            ).unwrap().update_statement() == Some(statement))
        }),
{
}

/// A batch without rows runs no statement for rows, one without repositories
/// none for stamps, and one with neither goes straight to the commit.
pub proof fn lemma_nothing_to_write_runs_nothing(batch: ConfigBatchView)
    ensures
        ({
            let next = IngestionView::Accumulating(batch).step(IngestEventView::EndOfInput);
            &&& batch.rows.len() == 0 && batch.checked_out.len() == 0 ==> next
                == (IngestionView::Committing, IngestActionView::Commit)
            &&& batch.rows.len() == 0 && batch.checked_out.len() > 0 ==> next == (
                IngestionView::Updating,
                IngestActionView::Execute(batch.update_statement().unwrap()),
            )
            &&& batch.rows.len() > 0 ==> next == (
                IngestionView::Inserting(batch.update_statement()),
                IngestActionView::Execute(batch.insert_statement().unwrap()),
            )
        }),
{
}

/// A store as a transaction sees it: what is committed, and what the open
/// transaction has written on top of it. What the store holds is left open.
pub struct Session<S> {
    /// What everyone sees.
    pub committed: S,
    /// What the open transaction sees; `None` where none is open.
    pub working: Option<S>,
}

impl<S> Session<S> {
    /// The session with a transaction opened.
    pub open spec fn begin(self) -> Session<S> {
        Session { committed: self.committed, working: Some(self.committed) }
    }

    /// The session once a statement has run in the open transaction, where
    /// `effect` says what a statement does to a store.
    pub open spec fn execute(
        self,
        statement: StatementView,
        effect: spec_fn(S, StatementView) -> S,
    ) -> Session<S> {
        match self.working {
            Some(written) => Session {
                committed: self.committed,
                working: Some(effect(written, statement)),
            },
            None => self,
        }
    }

    /// The session once the open transaction is committed.
    pub open spec fn commit(self) -> Session<S> {
        match self.working {
            Some(written) => Session { committed: written, working: None },
            None => self,
        }
    }

    /// The session once the open transaction is rolled back, or given up.
    pub open spec fn rollback(self) -> Session<S> {
        Session { committed: self.committed, working: None }
    }
}

/// The session in which a caller ends who does what the transaction says,
/// from the action `action` in the state `state` on, with no checkout left to
/// report. `faults` says of each thing that the store is asked to do whether
/// it fails; a caller that runs out of them gives the transaction up.
pub open spec fn settle<S>(
    state: IngestionView,
    action: IngestActionView,
    session: Session<S>,
    faults: Seq<bool>,
    effect: spec_fn(S, StatementView) -> S,
) -> Session<S>
    decreases faults.len(),
{
    if faults.len() == 0 {
        session.rollback()
    } else {
        let failed = if faults[0] {
            Some(Seq::<char>::empty())
        } else {
            None
        };
        let rest = faults.drop_first();
        match action {
            IngestActionView::Continue => session.rollback(),
            IngestActionView::Execute(statement) => {
                let next = state.step(IngestEventView::Executed(failed));
                let after = if faults[0] {
                    session
                } else {
                    session.execute(statement, effect)
                };
                settle(next.0, next.1, after, rest, effect)
            },
            IngestActionView::Commit => {
                let next = state.step(IngestEventView::CommitDone(failed));
                let after = if faults[0] {
                    session.rollback()
                } else {
                    session.commit()
                };
                settle(next.0, next.1, after, rest, effect)
            },
            IngestActionView::Rollback => {
                let next = state.step(IngestEventView::RollbackDone(failed));
                settle(next.0, next.1, session.rollback(), rest, effect)
            },
            IngestActionView::Finish(_) => session.rollback(),
        }
    }
}

/// The store once a statement has run, if there is one to run.
pub open spec fn applied<S>(
    store: S,
    statement: Option<StatementView>,
    effect: spec_fn(S, StatementView) -> S,
) -> S {
    match statement {
        Some(built) => effect(store, built),
        None => store,
    }
}

/// What the store holds once the batch is written: the rows upserted, if
/// there are rows, and the repositories stamped after it, if there are some.
pub open spec fn written<S>(
    store: S,
    batch: ConfigBatchView,
    effect: spec_fn(S, StatementView) -> S,
) -> S {
    applied(applied(store, batch.insert_statement(), effect), batch.update_statement(), effect)
}

/// The things that the store is asked to do for a batch when all goes well:
/// the statements that the batch has, and the commit.
pub open spec fn steps_to_write(batch: ConfigBatchView) -> nat {
    (if batch.insert_statement().is_some() {
        1nat
    } else {
        0nat
    }) + (if batch.update_statement().is_some() {
        1nat
    } else {
        0nat
    }) + 1
}

/// The first `steps` things that the store is asked to do are all done.
pub open spec fn all_done(faults: Seq<bool>, steps: nat) -> bool {
    faults.len() >= steps && forall|i: int| 0 <= i < steps ==> !faults[i]
}

/// A batch is written as a whole or not at all.
///
/// Whatever a statement does to the store, and whichever of the things that
/// the store is asked to do fail: in the end the store holds what it held
/// before, or it holds the rows and the stamps of the batch together. It holds
/// the batch if the statements that the batch has and the commit are done,
/// and what it held before if one of them fails; so where the insert fails,
/// no stamp of the update is there to be read afterwards. A batch without
/// rows is written by its stamps alone, and one with nothing in it by the
/// commit alone.
pub proof fn lemma_batch_is_atomic<S>(
    batch: ConfigBatchView,
    store: S,
    faults: Seq<bool>,
    effect: spec_fn(S, StatementView) -> S,
)
    ensures
        ({
            let sealed = IngestionView::Accumulating(batch).step(IngestEventView::EndOfInput);
            let session = Session { committed: store, working: None::<S> }.begin();
            let end = settle(sealed.0, sealed.1, session, faults, effect);
            &&& end.working.is_none()
            &&& end.committed == store || end.committed == written(store, batch, effect)
            &&& all_done(faults, steps_to_write(batch)) ==> end.committed == written(
                store,
                batch,
                effect,
            )
            &&& !all_done(faults, steps_to_write(batch)) ==> end.committed == store
        }),
{
    reveal_with_fuel(settle, 6);
    if faults.len() >= 1 {
        let one = faults.drop_first();
        if one.len() >= 1 {
            let two = one.drop_first();
            assert(one[0] == faults[1]);
            if two.len() >= 1 {
                let three = two.drop_first();
                assert(two[0] == faults[2]);
                if three.len() >= 1 {
                    let four = three.drop_first();
                }
            }
        }
    }
}

/// Something that the caller reports to the transaction.
#[derive(Debug)]
pub enum IngestEvent {
    /// The transaction was opened, or could not be.
    Opened(Result<(), String>),
    /// One more checkout was inspected.
    Inspected(Checkout),
    /// There are no more checkouts.
    EndOfInput,
    /// The statement that was asked for has run, or failed.
    Executed(Result<(), String>),
    /// The commit that was asked for is done, or failed.
    CommitDone(Result<(), String>),
    /// The rollback that was asked for is done, or failed.
    RollbackDone(Result<(), String>),
}

impl View for IngestEvent {
    type V = IngestEventView;

    open spec fn view(&self) -> IngestEventView {
        match self {
            IngestEvent::Opened(outcome) => IngestEventView::Opened(outcome_view(*outcome)),
            IngestEvent::Inspected(checkout) => IngestEventView::Inspected(checkout@),
            IngestEvent::EndOfInput => IngestEventView::EndOfInput,
            IngestEvent::Executed(outcome) => IngestEventView::Executed(outcome_view(*outcome)),
            IngestEvent::CommitDone(outcome) => IngestEventView::CommitDone(
                outcome_view(*outcome),
            ),
            IngestEvent::RollbackDone(outcome) => IngestEventView::RollbackDone(
                outcome_view(*outcome),
            ),
        }
    }
}

/// What the caller is to do next.
#[derive(Debug)]
pub enum IngestAction {
    /// Report the next checkout, or the end of the input.
    Continue,
    /// Run this statement in the transaction and report the outcome.
    Execute(Statement),
    /// Commit the transaction and report the outcome.
    Commit,
    /// Roll the transaction back and report the outcome.
    Rollback,
    /// The transaction is over: the batch is in the store, or nothing of it is,
    /// for the reason given.
    Finish(Result<(), StoreError>),
}

impl View for IngestAction {
    type V = IngestActionView;

    open spec fn view(&self) -> IngestActionView {
        match self {
            IngestAction::Continue => IngestActionView::Continue,
            IngestAction::Execute(statement) => IngestActionView::Execute(statement@),
            IngestAction::Commit => IngestActionView::Commit,
            IngestAction::Rollback => IngestActionView::Rollback,
            IngestAction::Finish(outcome) => IngestActionView::Finish(
                match outcome {
                    Ok(_) => None,
                    Err(error) => Some(error@),
                },
            ),
        }
    }
}

/// The transaction that writes one batch.
///
/// The caller opens a transaction and reports [`IngestEvent::Opened`]. From
/// there on each call of [`Ingestion::step`] says what to do next, until it
/// says [`IngestAction::Finish`].
#[derive(Debug)]
pub enum Ingestion {
    /// The transaction is being opened.
    Open,
    /// Checkouts are being added to the batch.
    Accumulating(ConfigBatch),
    /// The statement that upserts the rows is under way; the one that stamps
    /// the repositories is kept for later, if there is one.
    Inserting(Option<Statement>),
    /// The statement that stamps the repositories is under way.
    Updating,
    /// Every statement that the batch has ran; the transaction is being
    /// committed.
    Committing,
    /// The batch is in the store.
    Committed,
    /// Something failed; the transaction is being rolled back.
    Failing(StoreError),
    /// Nothing of the batch is in the store.
    RolledBack(StoreError),
}

impl View for Ingestion {
    type V = IngestionView;

    open spec fn view(&self) -> IngestionView {
        match self {
            Ingestion::Open => IngestionView::Open,
            Ingestion::Accumulating(batch) => IngestionView::Accumulating(batch@),
            Ingestion::Inserting(update) => IngestionView::Inserting(statement_view(*update)),
            Ingestion::Updating => IngestionView::Updating,
            Ingestion::Committing => IngestionView::Committing,
            Ingestion::Committed => IngestionView::Committed,
            Ingestion::Failing(error) => IngestionView::Failing(error@),
            Ingestion::RolledBack(error) => IngestionView::RolledBack(error@),
        }
    }
}

impl Ingestion {
    /// A transaction that is about to be opened.
    pub fn start() -> (ingestion: Ingestion)
        ensures
            ingestion@ == IngestionView::Open,
    {
        Ingestion::Open
    }

    /// The phase of the transaction.
    pub fn phase(&self) -> (phase: Phase)
        ensures
            phase == self@.phase(),
    {
        match self {
            Ingestion::Open => Phase::Open,
            Ingestion::Accumulating(_) => Phase::Accumulating,
            Ingestion::Inserting(_) => Phase::Accumulating,
            Ingestion::Updating => Phase::Accumulating,
            Ingestion::Committing => Phase::Committing,
            Ingestion::Committed => Phase::Committed,
            Ingestion::Failing(_) => Phase::Failing,
            Ingestion::RolledBack(_) => Phase::RolledBack,
        }
    }

    fn out_of_turn(self) -> (next: (Ingestion, IngestAction))
        ensures
            (next.0@, next.1@) == self@.out_of_turn(),
    {
        match self {
            Ingestion::Open => (Ingestion::Open, IngestAction::Finish(Err(StoreError::out_of_turn()))),
            Ingestion::Committed => (Ingestion::Committed, IngestAction::Finish(Ok(()))),
            Ingestion::RolledBack(error) => {
                let reported = error.clone();
                (Ingestion::RolledBack(error), IngestAction::Finish(Err(reported)))
            },
            Ingestion::Failing(error) => (Ingestion::Failing(error), IngestAction::Rollback),
            _ => (Ingestion::Failing(StoreError::out_of_turn()), IngestAction::Rollback),
        }
    }

    fn sealed(insert: Option<Statement>, update: Option<Statement>) -> (next: (
        Ingestion,
        IngestAction,
    ))
        ensures
            (next.0@, next.1@) == IngestionView::sealed(
                statement_view(insert),
                statement_view(update),
            ),
    {
        match insert {
            Some(rows) => (Ingestion::Inserting(update), IngestAction::Execute(rows)),
            None => match update {
                Some(stamps) => (Ingestion::Updating, IngestAction::Execute(stamps)),
                None => (Ingestion::Committing, IngestAction::Commit),
            },
        }
    }

    /// Takes what the caller reports and says what to do next.
    ///
    /// The batch is written in one transaction: its rows first, if it has
    /// rows, its stamps second, if it has repositories to stamp. A statement
    /// for nothing is not run. If a statement fails the transaction is rolled
    /// back and the failure is reported with its cause; nothing is committed
    /// unless every statement of the batch ran.
    pub fn step(self, event: IngestEvent) -> (next: (Ingestion, IngestAction))
        ensures
            (next.0@, next.1@) == self@.step(event@),
    {
        match (self, event) {
            (Ingestion::Open, IngestEvent::Opened(Ok(_))) => (
                Ingestion::Accumulating(ConfigBatch::new()),
                IngestAction::Continue,
            ),
            (Ingestion::Open, IngestEvent::Opened(Err(cause))) => {
                let error = StoreError::new(FailedStep::Open, cause);
                let reported = error.clone();
                (Ingestion::RolledBack(error), IngestAction::Finish(Err(reported)))
            },
            (Ingestion::Accumulating(batch), IngestEvent::Inspected(checkout)) => {
                let mut batch = batch;
                batch.accumulate(checkout);
                (Ingestion::Accumulating(batch), IngestAction::Continue)
            },
            (Ingestion::Accumulating(batch), IngestEvent::EndOfInput) => {
                let (insert, update) = batch.into_statements();
                Ingestion::sealed(insert, update)
            },
            (Ingestion::Inserting(update), IngestEvent::Executed(Ok(_))) => Ingestion::sealed(
                None,
                update,
            ),
            (Ingestion::Inserting(_), IngestEvent::Executed(Err(cause))) => (
                Ingestion::Failing(StoreError::new(FailedStep::Insert, cause)),
                IngestAction::Rollback,
            ),
            (Ingestion::Updating, IngestEvent::Executed(Ok(_))) => (
                Ingestion::Committing,
                IngestAction::Commit,
            ),
            (Ingestion::Updating, IngestEvent::Executed(Err(cause))) => (
                Ingestion::Failing(StoreError::new(FailedStep::Update, cause)),
                IngestAction::Rollback,
            ),
            (Ingestion::Committing, IngestEvent::CommitDone(Ok(_))) => (
                Ingestion::Committed,
                IngestAction::Finish(Ok(())),
            ),
            (Ingestion::Committing, IngestEvent::CommitDone(Err(cause))) => {
                let error = StoreError::new(FailedStep::Commit, cause);
                let reported = error.clone();
                (Ingestion::RolledBack(error), IngestAction::Finish(Err(reported)))
            },
            (Ingestion::Failing(error), IngestEvent::RollbackDone(Ok(_))) => {
                let reported = error.clone();
                (Ingestion::RolledBack(error), IngestAction::Finish(Err(reported)))
            },
            (Ingestion::Failing(error), IngestEvent::RollbackDone(Err(cause))) => {
                let error = StoreError { step: error.step, cause: error.cause, rollback: Some(cause) };
                let reported = error.clone();
                (Ingestion::RolledBack(error), IngestAction::Finish(Err(reported)))
            },
            (state, _) => state.out_of_turn(),
        }
    }
}

} // verus!
