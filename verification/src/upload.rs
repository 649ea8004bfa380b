//! The bulk upload of one file: which step comes next.
//!
//! The caller owns the channel to the store. It tells the upload what
//! happened to the last step, and the upload answers with the next one:
//! open the channel, send one record, close the channel, or give up. The
//! records are those of the file's features, in their order; the channel is
//! closed after the last one and never after a failure.

use vstd::prelude::*;
use vstd::string::StringExecFns;
use crate::feature::{
    encode_row, name_text, row_fault, row_text, EncodeError, Feature, Record, RowFault,
};

verus! {

/// Where an upload stands.
#[derive(Debug, Clone, Copy, PartialEq, Eq, Structural)]
pub enum Phase {
    /// Nothing has been asked for yet.
    Idle,
    /// The channel is being opened.
    Opening,
    /// A record is on its way.
    Sending,
    /// Every record was sent; the channel is being closed.
    Closing,
    /// The channel was closed after the last record.
    Done,
    /// The upload was given up.
    Aborted,
}

/// What the caller reports.
#[derive(Debug)]
pub enum UploadEvent {
    /// The upload may begin.
    Begin,
    /// The channel is open.
    Opened,
    /// The last record was written to the channel.
    Sent,
    /// The channel was closed and its rows were committed.
    Closed,
    /// The last step failed; the text says how.
    Failed(String),
}

/// Why an upload was given up.
#[derive(Debug)]
pub enum UploadError {
    /// A feature could not be encoded.
    Encode(EncodeError),
    /// The channel could not be opened, written to or closed.
    Transmission(String),
    /// The caller reported something that the last step cannot end in.
    OutOfTurn,
}

/// What the caller is to do next.
#[derive(Debug)]
pub enum UploadAction {
    /// Open the channel with this statement, then report `Opened`.
    Open(String),
    /// Write this record to the channel, then report `Sent`.
    Send(Record),
    /// Close the channel and commit, as one step, then report `Closed`.
    Close,
    /// Drop the channel and roll back: nothing of the file is kept.
    Abort(UploadError),
    /// The upload is complete, with this many rows.
    Finish(usize),
    /// The upload ended earlier; there is nothing to do.
    Rest,
}

/// The model of an event.
pub enum EventView {
    Begin,
    Opened,
    Sent,
    Closed,
    Failed(Seq<char>),
}

/// The model of an error.
pub enum ErrorView {
    Encode { index: nat, name: Seq<char>, fault: RowFault },
    Transmission(Seq<char>),
    OutOfTurn,
}

/// The model of an action.
pub enum ActionView {
    Open(Seq<char>),
    Send(Seq<char>),
    Close,
    Abort(ErrorView),
    Finish(nat),
    Rest,
}

impl View for UploadEvent {
    type V = EventView;

    open spec fn view(&self) -> EventView {
        match *self {
            UploadEvent::Begin => EventView::Begin,
            UploadEvent::Opened => EventView::Opened,
            UploadEvent::Sent => EventView::Sent,
            UploadEvent::Closed => EventView::Closed,
            UploadEvent::Failed(text) => EventView::Failed(text@),
        }
    }
}

impl View for UploadError {
    type V = ErrorView;

    open spec fn view(&self) -> ErrorView {
        match *self {
            UploadError::Encode(e) => ErrorView::Encode {
                index: e.feature_index as nat,
                name: e.feature_name@,
                fault: e.cause@,
            },
            UploadError::Transmission(text) => ErrorView::Transmission(text@),
            UploadError::OutOfTurn => ErrorView::OutOfTurn,
        }
    }
}

impl View for UploadAction {
    type V = ActionView;

    open spec fn view(&self) -> ActionView {
        match *self {
            UploadAction::Open(statement) => ActionView::Open(statement@),
            UploadAction::Send(record) => ActionView::Send(record@),
            UploadAction::Close => ActionView::Close,
            UploadAction::Abort(e) => ActionView::Abort(e@),
            UploadAction::Finish(rows) => ActionView::Finish(rows as nat),
            UploadAction::Rest => ActionView::Rest,
        }
    }
}

/// The statement that opens the bulk channel of a table.
pub open spec fn copy_statement_text(table: Seq<char>) -> Seq<char> {
    "COPY "@ + table + " (name, properties, geometry) FROM STDIN (FORMAT csv)"@
}

/// The statement that opens the bulk channel of a table, with the columns
/// in the order in which a record holds them.
pub fn copy_statement(table: &str) -> (statement: String)
    ensures
        statement@ == copy_statement_text(table@),
{
    let mut statement = String::from_str("COPY ");
    statement.append(table);
    statement.append(" (name, properties, geometry) FROM STDIN (FORMAT csv)");
    statement
}

/// The model of an upload.
pub struct UploadModel {
    pub table: Seq<char>,
    pub features: Seq<Feature>,
    /// How many features have been handed out as records.
    pub next: nat,
    pub phase: Phase,
}

impl UploadModel {
    /// What holds of every upload: no more records were handed out than
    /// the file has features, none before the channel was open, and all of
    /// them before it is closed.
    pub open spec fn well_formed(self) -> bool {
        &&& self.next <= self.features.len()
        &&& (self.phase is Idle || self.phase is Opening) ==> self.next == 0
        &&& self.phase is Sending ==> self.next > 0
        &&& (self.phase is Closing || self.phase is Done) ==> self.next == self.features.len()
    }

    /// An upload that has not begun.
    pub open spec fn initial(table: Seq<char>, features: Seq<Feature>) -> UploadModel {
        UploadModel { table, features, next: 0, phase: Phase::Idle }
    }

    /// The same upload in another phase.
    pub open spec fn in_phase(self, phase: Phase) -> UploadModel {
        UploadModel { phase, ..self }
    }

    /// The upload gives up.
    pub open spec fn abort(self, error: ErrorView) -> (UploadModel, ActionView) {
        (self.in_phase(Phase::Aborted), ActionView::Abort(error))
    }

    /// The channel is free: the next record goes out, or the channel is
    /// closed after the last one. A feature that cannot be encoded ends the
    /// upload.
    pub open spec fn advance(self) -> (UploadModel, ActionView) {
        if self.next >= self.features.len() {
            (self.in_phase(Phase::Closing), ActionView::Close)
        } else {
            let feature = self.features[self.next as int];
            match row_fault(feature) {
                None => (
                    UploadModel { next: self.next + 1, phase: Phase::Sending, ..self },
                    ActionView::Send(row_text(feature, self.next)),
                ),
                Some(fault) => self.abort(
                    ErrorView::Encode {
                        index: self.next,
                        name: name_text(feature.id, self.next),
                        fault,
                    },
                ),
            }
        }
    }

    /// The upload after an event, and the step that it asks for.
    pub open spec fn step(self, event: EventView) -> (UploadModel, ActionView) {
        if self.phase is Done || self.phase is Aborted {
            (self, ActionView::Rest)
        } else {
            match event {
                EventView::Failed(text) => self.abort(ErrorView::Transmission(text)),
                EventView::Begin => if self.phase is Idle {
                    (self.in_phase(Phase::Opening), ActionView::Open(copy_statement_text(self.table)))
                } else {
                    self.abort(ErrorView::OutOfTurn)
                },
                EventView::Opened => if self.phase is Opening {
                    self.advance()
                } else {
                    self.abort(ErrorView::OutOfTurn)
                },
                EventView::Sent => if self.phase is Sending {
                    self.advance()
                } else {
                    self.abort(ErrorView::OutOfTurn)
                },
                EventView::Closed => if self.phase is Closing {
                    (self.in_phase(Phase::Done), ActionView::Finish(self.features.len()))
                } else {
                    self.abort(ErrorView::OutOfTurn)
                },
            }
        }
    }
}

/// The upload of the features of one file into one table.
pub struct FileUpload {
    table: String,
    features: Vec<Feature>,
    next: usize,
    phase: Phase,
}

impl View for FileUpload {
    type V = UploadModel;

    closed spec fn view(&self) -> UploadModel {
        UploadModel {
            table: self.table@,
            features: self.features@,
            next: self.next as nat,
            phase: self.phase,
        }
    }
}

impl FileUpload {
    /// An upload that has not begun.
    pub fn new(table: String, features: Vec<Feature>) -> (upload: FileUpload)
        ensures
            upload@ == UploadModel::initial(table@, features@),
    {
        FileUpload { table, features, next: 0, phase: Phase::Idle }
    }

    /// Where the upload stands.
    pub fn phase(&self) -> (phase: Phase)
        ensures
            phase == self@.phase,
    {
        self.phase
    }

    /// How many records have been handed out.
    pub fn sent(&self) -> (n: usize)
        ensures
            n == self@.next,
    {
        self.next
    }

    fn give_up(&mut self, error: UploadError) -> (action: UploadAction)
        ensures
            (final(self)@, action@) == old(self)@.abort(error@),
    {
        self.phase = Phase::Aborted;
        UploadAction::Abort(error)
    }

    fn advance(&mut self) -> (action: UploadAction)
        ensures
            (final(self)@, action@) == old(self)@.advance(),
    {
        if self.next >= self.features.len() {
            self.phase = Phase::Closing;
            UploadAction::Close
        } else {
            match encode_row(&self.features[self.next], self.next) {
                Ok(record) => {
                    self.next = self.next + 1;
                    self.phase = Phase::Sending;
                    UploadAction::Send(record)
                },
                Err(e) => self.give_up(UploadError::Encode(e)),
            }
        }
    }

    /// Takes what the caller reports and says what to do next.
    pub fn step(&mut self, event: UploadEvent) -> (action: UploadAction)
        ensures
            (final(self)@, action@) == old(self)@.step(event@),
    {
        match self.phase {
            Phase::Done | Phase::Aborted => {
                return UploadAction::Rest;
            },
            _ => {},
        }
        match event {
            UploadEvent::Failed(text) => self.give_up(UploadError::Transmission(text)),
            UploadEvent::Begin => match self.phase {
                Phase::Idle => {
                    self.phase = Phase::Opening;
                    UploadAction::Open(copy_statement(self.table.as_str()))
                },
                _ => self.give_up(UploadError::OutOfTurn),
            },
            UploadEvent::Opened => match self.phase {
                Phase::Opening => self.advance(),
                _ => self.give_up(UploadError::OutOfTurn),
            },
            UploadEvent::Sent => match self.phase {
                Phase::Sending => self.advance(),
                _ => self.give_up(UploadError::OutOfTurn),
            },
            UploadEvent::Closed => match self.phase {
                Phase::Closing => {
                    self.phase = Phase::Done;
                    UploadAction::Finish(self.features.len())
                },
                _ => self.give_up(UploadError::OutOfTurn),
            },
        }
    }
}

/// The records of the features, each at its position.
pub open spec fn rows(features: Seq<Feature>) -> Seq<Seq<char>> {
    Seq::new(features.len(), |i: int| row_text(features[i], i as nat))
}

/// The upload after a sequence of events, and the steps that it asked for.
pub open spec fn run(start: UploadModel, events: Seq<EventView>) -> (UploadModel, Seq<ActionView>)
    decreases events.len(),
{
    if events.len() == 0 {
        (start, Seq::empty())
    } else {
        let (before, actions) = run(start, events.drop_last());
        let (after, action) = before.step(events.last());
        (after, actions.push(action))
    }
}

/// The records that a sequence of steps sends, in their order.
pub open spec fn sent_records(actions: Seq<ActionView>) -> Seq<Seq<char>>
    decreases actions.len(),
{
    if actions.len() == 0 {
        Seq::empty()
    } else if let ActionView::Send(record) = actions.last() {
        sent_records(actions.drop_last()).push(record)
    } else {
        sent_records(actions.drop_last())
    }
}

/// How often a sequence of steps closes the channel.
pub open spec fn closes(actions: Seq<ActionView>) -> nat
    decreases actions.len(),
{
    if actions.len() == 0 {
        0
    } else if actions.last() is Close {
        closes(actions.drop_last()) + 1
    } else {
        closes(actions.drop_last())
    }
}

/// How often a sequence of steps reports completion.
pub open spec fn finishes(actions: Seq<ActionView>) -> nat
    decreases actions.len(),
{
    if actions.len() == 0 {
        0
    } else if actions.last() is Finish {
        finishes(actions.drop_last()) + 1
    } else {
        finishes(actions.drop_last())
    }
}

/// How often a sequence of steps gives up.
pub open spec fn aborts(actions: Seq<ActionView>) -> nat
    decreases actions.len(),
{
    if actions.len() == 0 {
        0
    } else if actions.last() is Abort {
        aborts(actions.drop_last()) + 1
    } else {
        aborts(actions.drop_last())
    }
}

/// What holds of an upload and of the steps that led to it.
spec fn run_invariant(features: Seq<Feature>, m: UploadModel, actions: Seq<ActionView>) -> bool {
    &&& m.well_formed()
    &&& m.features == features
    &&& sent_records(actions) == rows(features).take(m.next as int)
    &&& forall|i: int| 0 <= i < m.next ==> row_fault(#[trigger] features[i]) is None
    &&& closes(actions) == (if m.phase is Closing || m.phase is Done {
        1nat
    } else if m.phase is Aborted && closes(actions) == 1 && m.next == features.len() {
        1nat
    } else {
        0nat
    })
    &&& finishes(actions) == (if m.phase is Done {
        1nat
    } else {
        0nat
    })
    &&& aborts(actions) == (if m.phase is Aborted {
        1nat
    } else {
        0nat
    })
}

proof fn lemma_run_invariant(table: Seq<char>, features: Seq<Feature>, events: Seq<EventView>)
    ensures
        ({
            let (m, actions) = run(UploadModel::initial(table, features), events);
            run_invariant(features, m, actions)
        }),
    decreases events.len(),
{
    let start = UploadModel::initial(table, features);
    if events.len() == 0 {
        assert(rows(features).take(0) =~= Seq::<Seq<char>>::empty());
    } else {
        lemma_run_invariant(table, features, events.drop_last());
        let (before, actions) = run(start, events.drop_last());
        let (after, action) = before.step(events.last());
        let all = actions.push(action);
        assert(all.drop_last() =~= actions);
        assert(all.last() == action);
        if let ActionView::Send(record) = action {
            assert(rows(features).take(after.next as int) =~= rows(features).take(
                before.next as int,
            ).push(record));
        }
    }
}

/// The records leave in the order of the features: whatever the caller
/// reports, the records sent so far are those of the first features of the
/// file, each encoded at its position, with none left out or repeated.
pub proof fn lemma_records_in_order(
    table: Seq<char>,
    features: Seq<Feature>,
    events: Seq<EventView>,
)
    ensures
        ({
            let (m, actions) = run(UploadModel::initial(table, features), events);
            &&& m.next <= features.len()
            &&& sent_records(actions) == rows(features).take(m.next as int)
        }),
{
    lemma_run_invariant(table, features, events);
}

/// The channel is closed at most once, and only when every record of the
/// file has been sent. Completion is reported at most once, only after the
/// channel was closed, and never by an upload that gave up.
pub proof fn lemma_closed_once_after_last_record(
    table: Seq<char>,
    features: Seq<Feature>,
    events: Seq<EventView>,
)
    ensures
        ({
            let (m, actions) = run(UploadModel::initial(table, features), events);
            &&& closes(actions) <= 1
            &&& closes(actions) == 1 ==> sent_records(actions) == rows(features)
            &&& finishes(actions) <= 1
            &&& finishes(actions) == 1 ==> closes(actions) == 1 && aborts(actions) == 0
            &&& finishes(actions) == 1 <==> m.phase is Done
            &&& aborts(actions) <= 1
            &&& aborts(actions) == 1 <==> m.phase is Aborted
        }),
{
    lemma_run_invariant(table, features, events);
    let (m, actions) = run(UploadModel::initial(table, features), events);
    if closes(actions) == 1 {
        assert(rows(features).take(m.next as int) =~= rows(features));
    }
}

/// A file with a feature that cannot be encoded is never committed:
/// whatever the caller reports, the upload neither closes the channel nor
/// reports completion.
pub proof fn lemma_bad_feature_never_closes(
    table: Seq<char>,
    features: Seq<Feature>,
    events: Seq<EventView>,
    bad: int,
)
    requires
        0 <= bad < features.len(),
        row_fault(features[bad]) is Some,
    ensures
        ({
            let (m, actions) = run(UploadModel::initial(table, features), events);
            &&& closes(actions) == 0
            &&& finishes(actions) == 0
            &&& m.next <= bad
        }),
{
    lemma_run_invariant(table, features, events);
}

} // verus!
