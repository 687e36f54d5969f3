//! The receiving of the files of one transfer, as a state machine. The caller
//! owns the socket and the disk: it does what a [`Step`] says and reports what
//! came of it as an [`Event`]. The machine keeps the count of what has arrived
//! and decides what is done next.

use crate::history::TransferStatus;
use crate::wire::{ErrorKind, FileMetadata, FileMetadataModel, ProtocolError, CHUNK_SIZE};
use vstd::prelude::*;

verus! {

/// Where the receiving of a transfer stands.
#[derive(Clone, Copy, Debug, PartialEq, Eq, Structural)]
pub enum Phase {
    /// The current file is being created.
    Opening,
    /// Bytes of the current file are awaited.
    Receiving,
    /// The current file is complete and its confirmation is being sent.
    Confirming,
    /// Every file was received and confirmed.
    Finished,
    /// The transfer was given up.
    Aborted,
}

/// Why a transfer was given up.
#[derive(Clone, Copy, Debug, PartialEq, Eq, Structural)]
pub enum AbortCause {
    /// The user cancelled.
    Cancelled,
    /// The sender closed the connection before the file was complete.
    PeerClosed,
    /// A folder for the file could not be created.
    SubfolderFailed,
    /// The file could not be created.
    FileFailed,
    /// Reading from the socket failed.
    ReadFailed,
    /// Writing to the file failed.
    WriteFailed,
    /// The confirmation could not be sent.
    ConfirmFailed,
    /// An event was reported that the step before it cannot lead to.
    Unexpected,
}

/// What the caller reports.
#[derive(Clone, Copy, Debug, PartialEq, Eq, Structural)]
pub enum Event {
    /// The file was created.
    Opened,
    /// A folder for the file could not be created.
    SubfolderFailed,
    /// The file could not be created.
    FileFailed,
    /// This many bytes were read from the socket and written to the file.
    Stored(usize),
    /// The socket gave no byte: the sender closed the connection.
    PeerClosed,
    /// Reading from the socket failed.
    ReadFailed,
    /// Writing to the file failed.
    WriteFailed,
    /// The confirmation was sent.
    Confirmed,
    /// The confirmation could not be sent.
    ConfirmFailed,
}

/// What the caller does next.
#[derive(Clone, Copy, Debug, PartialEq, Eq, Structural)]
pub enum Step {
    /// Create the file with this index, and the folders above it.
    Open { index: usize },
    /// Read up to `max_bytes` bytes from the socket into that file.
    Read { index: usize, max_bytes: usize },
    /// Confirm that file to the sender.
    Confirm { index: usize },
    /// Give the temp folder its final name and record the transfer as complete.
    Finish,
    /// Record the transfer with the status of the cause, leave the temp folder
    /// as it is, and close the connection.
    Abort { cause: AbortCause },
    /// Nothing: the transfer is over.
    Closed,
}

/// What the user interface is told when a transfer is given up.
#[derive(Clone, Copy, Debug, PartialEq, Eq, Structural)]
pub enum Notice {
    /// `transfer-cancelled`, with the record.
    Cancelled,
    /// `transfer-error`, with a message.
    Error,
    /// `transfer-partial`, with the record.
    Partial,
}

impl AbortCause {
    /// The status that the transfer is recorded with: partial where the user or
    /// the sender stopped it, an error where something failed.
    pub open spec fn recorded_status(self) -> TransferStatus {
        match self {
            AbortCause::Cancelled => TransferStatus::Partial,
            AbortCause::PeerClosed => TransferStatus::Partial,
            _ => TransferStatus::Error,
        }
    }

    /// The status that the transfer is recorded with.
    pub fn status(self) -> (status: TransferStatus)
        ensures
            status == self.recorded_status(),
    {
        match self {
            AbortCause::Cancelled => TransferStatus::Partial,
            AbortCause::PeerClosed => TransferStatus::Partial,
            _ => TransferStatus::Error,
        }
    }

    /// The kind of failure that the cause is.
    pub open spec fn failure_kind(self) -> ErrorKind {
        match self {
            AbortCause::Cancelled => ErrorKind::Cancellation,
            AbortCause::PeerClosed => ErrorKind::Connection,
            AbortCause::ReadFailed => ErrorKind::Connection,
            AbortCause::ConfirmFailed => ErrorKind::Connection,
            AbortCause::SubfolderFailed => ErrorKind::Filesystem,
            AbortCause::FileFailed => ErrorKind::Filesystem,
            AbortCause::WriteFailed => ErrorKind::Filesystem,
            AbortCause::Unexpected => ErrorKind::Protocol,
        }
    }

    /// The kind of failure that the cause is.
    pub fn kind(self) -> (kind: ErrorKind)
        ensures
            kind == self.failure_kind(),
    {
        match self {
            AbortCause::Cancelled => ErrorKind::Cancellation,
            AbortCause::PeerClosed => ErrorKind::Connection,
            AbortCause::ReadFailed => ErrorKind::Connection,
            AbortCause::ConfirmFailed => ErrorKind::Connection,
            AbortCause::SubfolderFailed => ErrorKind::Filesystem,
            AbortCause::FileFailed => ErrorKind::Filesystem,
            AbortCause::WriteFailed => ErrorKind::Filesystem,
            AbortCause::Unexpected => ErrorKind::Protocol,
        }
    }

    /// What the user interface is told, in this order.
    pub open spec fn told(self) -> Seq<Notice> {
        match self {
            AbortCause::Cancelled => seq![Notice::Cancelled],
            AbortCause::SubfolderFailed => seq![Notice::Error, Notice::Partial],
            AbortCause::FileFailed => seq![Notice::Error, Notice::Partial],
            _ => seq![Notice::Partial],
        }
    }

    /// What the user interface is told, in this order.
    pub fn notices(self) -> (notices: Vec<Notice>)
        ensures
            notices@ == self.told(),
    {
        let mut notices: Vec<Notice> = Vec::new();
        match self {
            AbortCause::Cancelled => {
                notices.push(Notice::Cancelled);
            },
            AbortCause::SubfolderFailed => {
                notices.push(Notice::Error);
                notices.push(Notice::Partial);
            },
            AbortCause::FileFailed => {
                notices.push(Notice::Error);
                notices.push(Notice::Partial);
            },
            _ => {
                notices.push(Notice::Partial);
            },
        }
        proof {
            assert(notices@ =~= self.told());
        }
        notices
    }
}

/// The bytes of all the files together.
pub open spec fn total_size(files: Seq<FileMetadataModel>) -> nat
    decreases files.len(),
{
    if files.len() == 0 {
        0
    } else {
        total_size(files.drop_last()) + files.last().size as nat
    }
}

/// The state of a [`Reception`].
pub struct ReceptionModel {
    /// The files to receive, in the order in which they arrive.
    pub files: Seq<FileMetadataModel>,
    /// The index of the current file; the number of files when all are done.
    pub index: nat,
    /// The bytes of the current file that have arrived.
    pub file_received: nat,
    /// The bytes of all files that have arrived.
    pub total_received: nat,
    pub phase: Phase,
}

impl ReceptionModel {
    /// What holds of every state that a reception goes through.
    pub open spec fn wf(self) -> bool {
        &&& self.index <= self.files.len()
        &&& total_size(self.files) <= u64::MAX
        &&& self.total_received == total_size(self.files.take(self.index as int))
            + self.file_received
        &&& self.index == self.files.len() ==> self.file_received == 0
        &&& self.index < self.files.len() ==> self.file_received
            <= self.files[self.index as int].size
        &&& match self.phase {
            Phase::Opening => self.index < self.files.len() && self.file_received == 0,
            Phase::Receiving => self.index < self.files.len() && self.file_received
                < self.files[self.index as int].size,
            Phase::Confirming => self.index < self.files.len() && self.file_received
                == self.files[self.index as int].size,
            Phase::Finished => self.index == self.files.len(),
            Phase::Aborted => true,
        }
    }

    /// The bytes of the current file that have not arrived.
    pub open spec fn remaining(self) -> nat {
        (self.files[self.index as int].size - self.file_received) as nat
    }

    /// The most bytes that the next read may bring.
    pub open spec fn next_read(self) -> nat {
        if self.remaining() < CHUNK_SIZE {
            self.remaining()
        } else {
            CHUNK_SIZE as nat
        }
    }

    /// This state given up.
    pub open spec fn aborted(self, cause: AbortCause) -> (ReceptionModel, Step) {
        (ReceptionModel { phase: Phase::Aborted, ..self }, Step::Abort { cause })
    }

    /// The state and step on coming to the file with this index.
    pub open spec fn entering(self, index: nat, cancelled: bool) -> (ReceptionModel, Step) {
        let at = ReceptionModel { index, file_received: 0, ..self };
        if index >= self.files.len() {
            (ReceptionModel { phase: Phase::Finished, ..at }, Step::Finish)
        } else if cancelled {
            at.aborted(AbortCause::Cancelled)
        } else {
            (ReceptionModel { phase: Phase::Opening, ..at }, Step::Open { index: index as usize })
        }
    }

    /// The state and step when the current file has what arrived so far.
    pub open spec fn reading_on(self) -> (ReceptionModel, Step) {
        if self.file_received < self.files[self.index as int].size {
            (
                ReceptionModel { phase: Phase::Receiving, ..self },
                Step::Read { index: self.index as usize, max_bytes: self.next_read() as usize },
            )
        } else {
            (
                ReceptionModel { phase: Phase::Confirming, ..self },
                Step::Confirm { index: self.index as usize },
            )
        }
    }

    /// The state and step after an event. `cancelled` says whether the user has
    /// cancelled by now; it is looked at before a file is begun and after bytes
    /// were stored.
    pub open spec fn advanced(self, event: Event, cancelled: bool) -> (ReceptionModel, Step) {
        match self.phase {
            Phase::Opening => match event {
                Event::Opened => self.reading_on(),
                Event::SubfolderFailed => self.aborted(AbortCause::SubfolderFailed),
                Event::FileFailed => self.aborted(AbortCause::FileFailed),
                _ => self.aborted(AbortCause::Unexpected),
            },
            Phase::Receiving => match event {
                Event::Stored(bytes) => if 0 < bytes <= self.next_read() {
                    let grown = ReceptionModel {
                        file_received: self.file_received + bytes as nat,
                        total_received: self.total_received + bytes as nat,
                        ..self
                    };
                    if cancelled {
                        grown.aborted(AbortCause::Cancelled)
                    } else {
                        grown.reading_on()
                    }
                } else {
                    self.aborted(AbortCause::Unexpected)
                },
                Event::PeerClosed => self.aborted(AbortCause::PeerClosed),
                Event::ReadFailed => self.aborted(AbortCause::ReadFailed),
                Event::WriteFailed => self.aborted(AbortCause::WriteFailed),
                _ => self.aborted(AbortCause::Unexpected),
            },
            Phase::Confirming => match event {
                Event::Confirmed => self.entering(self.index + 1, cancelled),
                Event::ConfirmFailed => self.aborted(AbortCause::ConfirmFailed),
                _ => self.aborted(AbortCause::Unexpected),
            },
            Phase::Finished => (self, Step::Closed),
            Phase::Aborted => (self, Step::Closed),
        }
    }
}

/// The state and first step of the reception of `files`.
pub open spec fn started(files: Seq<FileMetadataModel>, cancelled: bool) -> (ReceptionModel, Step) {
    ReceptionModel {
        files,
        index: 0,
        file_received: 0,
        total_received: 0,
        phase: Phase::Opening,
    }.entering(0, cancelled)
}

/// The bytes of the first `n` files are no more than the bytes of all.
pub proof fn lemma_total_size_grows(files: Seq<FileMetadataModel>, n: int)
    requires
        0 <= n <= files.len(),
    ensures
        total_size(files.take(n)) <= total_size(files),
        n < files.len() ==> total_size(files.take(n + 1)) == total_size(files.take(n))
            + files[n].size,
    decreases files.len() - n,
{
    if n == files.len() {
        assert(files.take(n) =~= files);
    } else {
        lemma_total_size_grows(files, n + 1);
        assert(files.take(n + 1).drop_last() =~= files.take(n));
        assert(files.take(n + 1).last() == files[n]);
    }
}

/// The reception of the files of one transfer.
pub struct Reception {
    files: Vec<FileMetadata>,
    total_bytes: u64,
    index: usize,
    file_received: u64,
    total_received: u64,
    phase: Phase,
}

impl View for Reception {
    type V = ReceptionModel;

    closed spec fn view(&self) -> ReceptionModel {
        ReceptionModel {
            files: self.files.deep_view(),
            index: self.index as nat,
            file_received: self.file_received as nat,
            total_received: self.total_received as nat,
            phase: self.phase,
        }
    }
}

impl Reception {
    /// What holds of every reception: its state is well-formed, and the total it
    /// keeps is the bytes of its files.
    pub closed spec fn wf(&self) -> bool {
        self@.wf() && self.total_bytes == total_size(self.files.deep_view())
    }

    /// A reception is in a state that receptions go through.
    pub proof fn lemma_wf(&self)
        requires
            self.wf(),
        ensures
            self@.wf(),
    {
    }

    /// Begins the reception of `files`, and says what to do first. The bytes of
    /// the files must add up to no more than `u64::MAX`.
    pub fn begin(files: Vec<FileMetadata>, cancelled: bool) -> (r: Result<
        (Reception, Step),
        ProtocolError,
    >)
        ensures
            match r {
                Ok((reception, step)) => {
                    &&& total_size(files.deep_view()) <= u64::MAX
                    &&& reception.wf()
                    &&& (reception@, step) == started(files.deep_view(), cancelled)
                },
                Err(e) => e is SizeOverflow && total_size(files.deep_view()) > u64::MAX,
            },
    {
        let mut total: u64 = 0;
        let mut i: usize = 0;
        proof {
            assert(files.deep_view().take(0) =~= Seq::<FileMetadataModel>::empty());
        }
        while i < files.len()
            invariant
                i <= files.len(),
                total == total_size(files.deep_view().take(i as int)),
            decreases files.len() - i,
        {
            proof {
                lemma_total_size_grows(files.deep_view(), i as int);
                lemma_total_size_grows(files.deep_view(), i + 1);
            }
            match total.checked_add(files[i].size) {
                Some(sum) => {
                    total = sum;
                },
                None => {
                    return Err(ProtocolError::SizeOverflow);
                },
            }
            i += 1;
        }
        proof {
            assert(files.deep_view().take(files.len() as int) =~= files.deep_view());
            assert(files.deep_view().take(0) =~= Seq::<FileMetadataModel>::empty());
        }
        let mut reception = Reception {
            files,
            total_bytes: total,
            index: 0,
            file_received: 0,
            total_received: 0,
            phase: Phase::Opening,
        };
        let step = reception.enter(0, cancelled);
        Ok((reception, step))
    }

    /// Comes to the file with this index.
    fn enter(&mut self, index: usize, cancelled: bool) -> (step: Step)
        requires
            index <= old(self).files.len(),
            total_size(old(self).files.deep_view()) == old(self).total_bytes,
            old(self).total_received == total_size(old(self).files.deep_view().take(index as int)),
        ensures
            final(self).wf(),
            (final(self)@, step) == old(self)@.entering(index as nat, cancelled),
    {
        self.index = index;
        self.file_received = 0;
        if index >= self.files.len() {
            self.phase = Phase::Finished;
            Step::Finish
        } else if cancelled {
            self.phase = Phase::Aborted;
            Step::Abort { cause: AbortCause::Cancelled }
        } else {
            self.phase = Phase::Opening;
            Step::Open { index }
        }
    }

    /// What holds of the counts of a reception in every phase.
    spec fn tallied(&self) -> bool {
        &&& self.total_bytes == total_size(self.files.deep_view())
        &&& self.index <= self.files.len()
        &&& self.total_received == total_size(self.files.deep_view().take(self.index as int))
            + self.file_received
        &&& self.index == self.files.len() ==> self.file_received == 0
        &&& self.index < self.files.len() ==> self.file_received
            <= self.files[self.index as int].size
    }

    /// Gives the transfer up.
    fn abort(&mut self, cause: AbortCause) -> (step: Step)
        requires
            old(self).tallied(),
        ensures
            final(self).wf(),
            (final(self)@, step) == old(self)@.aborted(cause),
    {
        self.phase = Phase::Aborted;
        Step::Abort { cause }
    }

    /// Goes on with the current file: reads on, or confirms it when it is
    /// complete.
    fn read_on(&mut self) -> (step: Step)
        requires
            old(self).total_bytes == total_size(old(self).files.deep_view()),
            old(self).index < old(self).files.len(),
            old(self).file_received <= old(self).files[old(self).index as int].size,
            old(self).total_received == total_size(
                old(self).files.deep_view().take(old(self).index as int),
            ) + old(self).file_received,
        ensures
            final(self).wf(),
            (final(self)@, step) == old(self)@.reading_on(),
    {
        let size = self.files[self.index].size;
        if self.file_received < size {
            let remaining: u64 = size - self.file_received;
            let max_bytes: usize = if remaining < CHUNK_SIZE as u64 {
                remaining as usize
            } else {
                CHUNK_SIZE
            };
            self.phase = Phase::Receiving;
            Step::Read { index: self.index, max_bytes }
        } else {
            self.phase = Phase::Confirming;
            Step::Confirm { index: self.index }
        }
    }

    /// Takes what the caller reports of the last step, and says what to do
    /// next; see [`ReceptionModel::advanced`].
    pub fn advance(&mut self, event: Event, cancelled: bool) -> (step: Step)
        requires
            old(self).wf(),
        ensures
            final(self).wf(),
            (final(self)@, step) == old(self)@.advanced(event, cancelled),
    {
        proof {
            lemma_bounded(self@);
            assert(self.files.deep_view().len() == self.files.len());
        }
        match self.phase {
            Phase::Opening => match event {
                Event::Opened => self.read_on(),
                Event::SubfolderFailed => self.abort(AbortCause::SubfolderFailed),
                Event::FileFailed => self.abort(AbortCause::FileFailed),
                _ => self.abort(AbortCause::Unexpected),
            },
            Phase::Receiving => match event {
                Event::Stored(bytes) => {
                    let size = self.files[self.index].size;
                    let remaining: u64 = size - self.file_received;
                    if 0 < bytes && bytes <= CHUNK_SIZE && bytes as u64 <= remaining {
                        self.file_received = self.file_received + bytes as u64;
                        self.total_received = self.total_received + bytes as u64;
                        if cancelled {
                            self.abort(AbortCause::Cancelled)
                        } else {
                            self.read_on()
                        }
                    } else {
                        self.abort(AbortCause::Unexpected)
                    }
                },
                Event::PeerClosed => self.abort(AbortCause::PeerClosed),
                Event::ReadFailed => self.abort(AbortCause::ReadFailed),
                Event::WriteFailed => self.abort(AbortCause::WriteFailed),
                _ => self.abort(AbortCause::Unexpected),
            },
            Phase::Confirming => match event {
                Event::Confirmed => {
                    let next = self.index + 1;
                    self.enter(next, cancelled)
                },
                Event::ConfirmFailed => self.abort(AbortCause::ConfirmFailed),
                _ => self.abort(AbortCause::Unexpected),
            },
            Phase::Finished => Step::Closed,
            Phase::Aborted => Step::Closed,
        }
    }

    /// Where the reception stands.
    pub fn phase(&self) -> (phase: Phase)
        ensures
            phase == self@.phase,
    {
        self.phase
    }

    /// The files to receive.
    pub fn files(&self) -> (files: &Vec<FileMetadata>)
        ensures
            files.deep_view() == self@.files,
    {
        &self.files
    }

    /// The file that is being received, if the reception stands at one.
    pub fn current_file(&self) -> (file: Option<&FileMetadata>)
        requires
            self.wf(),
        ensures
            match file {
                Some(f) => self@.index < self@.files.len() && f.deep_view()
                    == self@.files[self@.index as int],
                None => self@.index == self@.files.len(),
            },
    {
        if self.index < self.files.len() {
            Some(&self.files[self.index])
        } else {
            None
        }
    }

    /// The index of the current file.
    pub fn file_index(&self) -> (index: usize)
        ensures
            index == self@.index,
    {
        self.index
    }

    /// The number of files that were received and confirmed.
    pub fn files_completed(&self) -> (count: usize)
        ensures
            count == self@.index,
    {
        self.index
    }

    /// The bytes of the current file that have arrived.
    pub fn file_received(&self) -> (bytes: u64)
        ensures
            bytes == self@.file_received,
    {
        self.file_received
    }

    /// The bytes of all files that have arrived.
    pub fn total_received(&self) -> (bytes: u64)
        ensures
            bytes == self@.total_received,
    {
        self.total_received
    }

    /// The bytes of all files of the transfer.
    pub fn total_bytes(&self) -> (bytes: u64)
        requires
            self.wf(),
        ensures
            bytes == total_size(self@.files),
    {
        self.total_bytes
    }
}

/// A well-formed state counts no more bytes than the files of the transfer
/// have, also when the current file is counted in full.
pub proof fn lemma_bounded(state: ReceptionModel)
    requires
        state.wf(),
    ensures
        state.total_received <= total_size(state.files),
        state.index < state.files.len() ==> total_size(state.files.take(state.index as int))
            + state.files[state.index as int].size <= total_size(state.files),
        state.index < state.files.len() ==> total_size(state.files.take(state.index as int + 1))
            == total_size(state.files.take(state.index as int))
            + state.files[state.index as int].size,
{
    lemma_total_size_grows(state.files, state.index as int);
    if state.index < state.files.len() {
        lemma_total_size_grows(state.files, state.index as int + 1);
    }
}

/// Every state that follows a well-formed state is well-formed, and never
/// counts more bytes than the files of the transfer have.
pub proof fn lemma_advanced_wf(state: ReceptionModel, event: Event, cancelled: bool)
    requires
        state.wf(),
    ensures
        state.advanced(event, cancelled).0.wf(),
        state.advanced(event, cancelled).0.files == state.files,
        state.advanced(event, cancelled).0.total_received <= total_size(state.files),
        state.advanced(event, cancelled).0.total_received >= state.total_received,
{
    lemma_bounded(state);
    let after = state.advanced(event, cancelled).0;
    assert(after.wf());
    lemma_bounded(after);
}

/// A reception begins in a well-formed state.
pub proof fn lemma_started_wf(files: Seq<FileMetadataModel>, cancelled: bool)
    requires
        total_size(files) <= u64::MAX,
    ensures
        started(files, cancelled).0.wf(),
        started(files, cancelled).0.files == files,
        started(files, cancelled).0.total_received == 0,
{
    assert(files.take(0) =~= Seq::<FileMetadataModel>::empty());
}

/// The step to finish is taken only when every file has arrived in full: all
/// files are behind, and the bytes counted are the bytes of the files.
pub proof fn lemma_finish_is_complete(state: ReceptionModel, event: Event, cancelled: bool)
    requires
        state.wf(),
        state.advanced(event, cancelled).1 == Step::Finish,
    ensures
        state.advanced(event, cancelled).0.phase == Phase::Finished,
        state.advanced(event, cancelled).0.index == state.files.len(),
        state.advanced(event, cancelled).0.total_received == total_size(state.files),
{
    lemma_advanced_wf(state, event, cancelled);
    let after = state.advanced(event, cancelled).0;
    assert(after.files.take(after.index as int) =~= after.files);
}

/// A cancellation that is seen after bytes were stored gives the transfer up:
/// it is recorded as partial, the bytes that arrived stay counted, and from
/// then on no step is taken, so the temp folder is never renamed.
pub proof fn lemma_cancel_stops(state: ReceptionModel, bytes: usize, later: Event, again: bool)
    requires
        state.wf(),
        state.phase == Phase::Receiving,
        0 < bytes <= state.next_read(),
    ensures
        state.advanced(Event::Stored(bytes), true).1 == (Step::Abort {
            cause: AbortCause::Cancelled,
        }),
        AbortCause::Cancelled.recorded_status() == TransferStatus::Partial,
        state.advanced(Event::Stored(bytes), true).0.phase == Phase::Aborted,
        state.advanced(Event::Stored(bytes), true).0.total_received == state.total_received
            + bytes,
        state.advanced(Event::Stored(bytes), true).0.advanced(later, again) == (
            state.advanced(Event::Stored(bytes), true).0,
            Step::Closed,
        ),
{
}

/// A transfer that was given up or has finished takes no further step.
pub proof fn lemma_over_stays_over(state: ReceptionModel, event: Event, cancelled: bool)
    requires
        state.phase == Phase::Aborted || state.phase == Phase::Finished,
    ensures
        state.advanced(event, cancelled) == (state, Step::Closed),
{
}

/// Only files of the transfer are opened, read into and confirmed.
pub proof fn lemma_steps_name_files(state: ReceptionModel, event: Event, cancelled: bool)
    requires
        state.wf(),
    ensures
        match state.advanced(event, cancelled).1 {
            Step::Open { index } => index < state.files.len(),
            Step::Read { index, max_bytes } => {
                &&& index < state.files.len()
                &&& 0 < max_bytes <= CHUNK_SIZE
                &&& max_bytes <= state.advanced(event, cancelled).0.remaining()
            },
            Step::Confirm { index } => index < state.files.len(),
            _ => true,
        },
{
    lemma_advanced_wf(state, event, cancelled);
}

/// What a folder holds, file by file: the bytes of each file under its key.
pub type FolderContents = Map<Seq<char>, u64>;

/// What a folder holds once the `files` were received into it, one after the
/// other: each file stands under its key with its own bytes, whatever stood
/// there before; what no file replaced stays.
pub open spec fn received_into(folder: FolderContents, files: Seq<FileMetadataModel>) -> FolderContents
    decreases files.len(),
{
    if files.len() == 0 {
        folder
    } else {
        received_into(folder, files.drop_last()).insert(files.last().key(), files.last().size)
    }
}

/// No two of the files have the same key.
pub open spec fn keys_are_distinct(files: Seq<FileMetadataModel>) -> bool {
    forall|i: int, j: int|
        0 <= i < j < files.len() ==> (#[trigger] files[i]).key() != (#[trigger] files[j]).key()
}

/// A folder that held only files of the transfer holds, once all files of the
/// transfer were received into it, exactly these files, each with the bytes
/// that were announced for it. What the folder held of a file before does not
/// matter: the file is received again and replaces it.
pub proof fn lemma_received_into(folder: FolderContents, files: Seq<FileMetadataModel>)
    requires
        keys_are_distinct(files),
        forall|key: Seq<char>|
            folder.dom().contains(key) ==> exists|i: int|
                0 <= i < files.len() && (#[trigger] files[i]).key() == key,
    ensures
        forall|i: int|
            0 <= i < files.len() ==> received_into(folder, files).dom().contains(
                (#[trigger] files[i]).key(),
            ) && received_into(folder, files)[files[i].key()] == files[i].size,
        forall|key: Seq<char>|
            received_into(folder, files).dom().contains(key) ==> exists|i: int|
                0 <= i < files.len() && (#[trigger] files[i]).key() == key,
{
    lemma_received_keys(folder, files);
    assert forall|key: Seq<char>| received_into(folder, files).dom().contains(key) implies exists|
        i: int,
    | 0 <= i < files.len() && (#[trigger] files[i]).key() == key by {
        if !folder.dom().contains(key) {
        }
    }
}

/// What is received stands in the folder with its bytes, and nothing comes into
/// the folder but what is received.
pub proof fn lemma_received_keys(folder: FolderContents, files: Seq<FileMetadataModel>)
    requires
        keys_are_distinct(files),
    ensures
        forall|i: int|
            0 <= i < files.len() ==> received_into(folder, files).dom().contains(
                (#[trigger] files[i]).key(),
            ) && received_into(folder, files)[files[i].key()] == files[i].size,
        forall|key: Seq<char>|
            received_into(folder, files).dom().contains(key) ==> folder.dom().contains(key) || (
            exists|i: int| 0 <= i < files.len() && (#[trigger] files[i]).key() == key),
    decreases files.len(),
{
    if files.len() > 0 {
        let shorter = files.drop_last();
        let last = files.last();
        assert(keys_are_distinct(shorter)) by {
            assert forall|i: int, j: int| 0 <= i < j < shorter.len() implies (
            #[trigger] shorter[i]).key() != (#[trigger] shorter[j]).key() by {
                assert(shorter[i] == files[i] && shorter[j] == files[j]);
            }
        }
        lemma_received_keys(folder, shorter);
        let after = received_into(folder, files);
        assert forall|i: int| 0 <= i < files.len() implies after.dom().contains(
            (#[trigger] files[i]).key(),
        ) && after[files[i].key()] == files[i].size by {
            if i < files.len() - 1 {
                assert(shorter[i] == files[i]);
                assert(files[i].key() != files[files.len() - 1].key());
            }
        }
        assert forall|key: Seq<char>| after.dom().contains(key) implies folder.dom().contains(key)
            || (exists|i: int| 0 <= i < files.len() && (#[trigger] files[i]).key() == key) by {
            if key == last.key() {
                assert(files[files.len() - 1].key() == key);
            } else if !folder.dom().contains(key) {
                let i = choose|i: int| 0 <= i < shorter.len() && (#[trigger] shorter[i]).key() == key;
                assert(files[i].key() == key);
            }
        }
    }
}

} // verus!
