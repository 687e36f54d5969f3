//! The sending side of a connection: what is offered, what is chosen, and the
//! streaming of the chosen files as a state machine. As on the receiving side,
//! the caller owns the socket and the files, does what a [`SendStep`] says and
//! reports what came of it as a [`SendEvent`].

use crate::history::copy_of;
use crate::text::{is_listed, names_contain};
use crate::wire::{
    ErrorKind, FileMetadata, FileMetadataModel, ProtocolError, TransferHeader, CHUNK_SIZE,
};
use vstd::prelude::*;

verus! {

/// The seconds after which a sender gives up on connecting.
pub const CONNECT_TIMEOUT_SECS: u64 = 5;

/// The seconds after which a sender gives up on a connection that neither
/// takes nor sends a byte.
pub const SEND_TIMEOUT_SECS: u64 = 60;

/// The most bytes that are read of a receiver's response to a file.
pub const RESPONSE_CAPACITY: usize = 32;

/// A file that a sender can send: where it lies, what it is called, where it
/// goes below the destination folder, and how long it is.
#[derive(Clone, Debug, PartialEq, Eq)]
pub struct FileInfo {
    pub path: String,
    pub name: String,
    pub relative_path: String,
    pub size: u64,
}

/// [`FileInfo`] as a value of specifications.
pub struct FileInfoModel {
    pub path: Seq<char>,
    pub name: Seq<char>,
    pub relative_path: Seq<char>,
    pub size: u64,
}

impl DeepView for FileInfo {
    type V = FileInfoModel;

    open spec fn deep_view(&self) -> FileInfoModel {
        FileInfoModel {
            path: self.path@,
            name: self.name@,
            relative_path: self.relative_path@,
            size: self.size,
        }
    }
}

impl FileInfoModel {
    /// What the file is announced with.
    pub open spec fn metadata(self) -> FileMetadataModel {
        FileMetadataModel { name: self.name, relative_path: self.relative_path, size: self.size }
    }
}

impl FileInfo {
    /// A copy of this description.
    pub fn duplicate(&self) -> (copy: FileInfo)
        ensures
            copy.deep_view() == self.deep_view(),
    {
        FileInfo {
            path: self.path.clone(),
            name: self.name.clone(),
            relative_path: self.relative_path.clone(),
            size: self.size,
        }
    }

    /// A file that is sent by itself: it goes directly into the destination
    /// folder, under its name.
    pub fn loose(path: &str, name: &str, size: u64) -> (file: FileInfo)
        ensures
            file.deep_view() == (FileInfoModel {
                path: path@,
                name: name@,
                relative_path: name@,
                size,
            }),
    {
        FileInfo {
            path: path.to_owned(),
            name: name.to_owned(),
            relative_path: name.to_owned(),
            size,
        }
    }
}

/// The files among `files` that a selection keeps, in the same order: all of
/// them where there is no selection, else those whose relative path the
/// selection names.
pub open spec fn selected(files: Seq<FileInfoModel>, selection: Option<Seq<Seq<char>>>) -> Seq<
    FileInfoModel,
>
    decreases files.len(),
{
    if files.len() == 0 {
        Seq::empty()
    } else {
        let head = selected(files.drop_last(), selection);
        let keep = match selection {
            Some(names) => names_contain(names, files.last().relative_path),
            None => true,
        };
        if keep {
            head.push(files.last())
        } else {
            head
        }
    }
}

/// The bytes of all the files together.
pub open spec fn bytes_of(files: Seq<FileInfoModel>) -> nat
    decreases files.len(),
{
    if files.len() == 0 {
        0
    } else {
        bytes_of(files.drop_last()) + files.last().size as nat
    }
}

/// Picks the files that a selection keeps; see [`selected`].
pub fn select_files(files: &Vec<FileInfo>, selection: &Option<Vec<String>>) -> (chosen: Vec<
    FileInfo,
>)
    ensures
        chosen.deep_view() == selected(files.deep_view(), selection.deep_view()),
{
    let mut chosen: Vec<FileInfo> = Vec::new();
    let mut i: usize = 0;
    proof {
        assert(files.deep_view().take(0) =~= Seq::<FileInfoModel>::empty());
    }
    while i < files.len()
        invariant
            i <= files.len(),
            chosen.deep_view() == selected(files.deep_view().take(i as int), selection.deep_view()),
        decreases files.len() - i,
    {
        let ghost so_far = chosen.deep_view();
        proof {
            assert(files.deep_view().take(i + 1).drop_last() =~= files.deep_view().take(i as int));
            assert(files.deep_view().take(i + 1).last() == files[i as int].deep_view());
        }
        let keep = match selection {
            Some(names) => is_listed(names, files[i].relative_path.as_str()),
            None => true,
        };
        if keep {
            let copy = files[i].duplicate();
            chosen.push(copy);
            proof {
                assert(chosen.deep_view() =~= so_far.push(copy.deep_view()));
            }
        }
        i += 1;
    }
    proof {
        assert(files.deep_view().take(files.len() as int) =~= files.deep_view());
    }
    chosen
}

/// What the files are announced with, in the same order.
pub fn file_metadata(files: &Vec<FileInfo>) -> (offer: Vec<FileMetadata>)
    ensures
        offer.deep_view() == files.deep_view().map_values(|f: FileInfoModel| f.metadata()),
{
    let mut offer: Vec<FileMetadata> = Vec::new();
    let mut i: usize = 0;
    while i < files.len()
        invariant
            i <= files.len(),
            offer.len() == i,
            forall|j: int| 0 <= j < i ==> offer[j].deep_view() == files[j].deep_view().metadata(),
        decreases files.len() - i,
    {
        offer.push(
            FileMetadata {
                name: files[i].name.clone(),
                relative_path: files[i].relative_path.clone(),
                size: files[i].size,
            },
        );
        i += 1;
    }
    proof {
        assert(offer.deep_view() =~= files.deep_view().map_values(
            |f: FileInfoModel| f.metadata(),
        ));
    }
    offer
}

/// The decision list that names the files: their relative paths, in order.
pub fn decision_for(files: &Vec<FileInfo>) -> (decision: Vec<String>)
    ensures
        decision.deep_view() == files.deep_view().map_values(|f: FileInfoModel| f.relative_path),
{
    let mut decision: Vec<String> = Vec::new();
    let mut i: usize = 0;
    while i < files.len()
        invariant
            i <= files.len(),
            decision.len() == i,
            forall|j: int| 0 <= j < i ==> decision[j]@ == files[j].relative_path@,
        decreases files.len() - i,
    {
        decision.push(files[i].relative_path.clone());
        i += 1;
    }
    proof {
        assert(decision.deep_view() =~= files.deep_view().map_values(
            |f: FileInfoModel| f.relative_path,
        ));
    }
    decision
}

/// The header that offers the files. A transfer passes a folder on exactly
/// when it gives the folder's name.
pub fn build_header(
    sender_name: &str,
    sender_role: &Option<String>,
    files: &Vec<FileInfo>,
    folder_name: Option<String>,
) -> (header: TransferHeader)
    ensures
        header.photographer@ == sender_name@,
        header.sender_role.deep_view() == sender_role.deep_view(),
        header.files.deep_view() == files.deep_view().map_values(|f: FileInfoModel| f.metadata()),
        header.is_folder_transfer == folder_name is Some,
        header.folder_name == folder_name,
{
    TransferHeader {
        photographer: sender_name.to_owned(),
        files: file_metadata(files),
        is_folder_transfer: folder_name.is_some(),
        folder_name,
        sender_role: copy_of(sender_role),
    }
}

/// Where the sending of a transfer stands.
#[derive(Clone, Copy, Debug, PartialEq, Eq, Structural)]
pub enum SendPhase {
    /// The current file is being opened.
    Opening,
    /// Bytes of the current file are being sent.
    Streaming,
    /// The receiver's confirmation of the current file is awaited.
    AwaitingConfirmation,
    /// Every file was sent and confirmed.
    Finished,
    /// The transfer was given up.
    Failed,
}

/// Why a transfer was given up by its sender.
#[derive(Clone, Copy, Debug, PartialEq, Eq, Structural)]
pub enum SendFailure {
    /// The user cancelled.
    Cancelled,
    /// The file could not be opened.
    OpenFailed,
    /// The file could not be read.
    ReadFailed,
    /// The socket could not be written to.
    WriteFailed,
    /// No response to the file could be read.
    ResponseFailed,
    /// The receiver's response to the file does not confirm it.
    Rejected,
    /// An event was reported that the step before it cannot lead to.
    Unexpected,
}

impl SendFailure {
    /// The kind of failure that the cause is.
    pub open spec fn failure_kind(self) -> ErrorKind {
        match self {
            SendFailure::Cancelled => ErrorKind::Cancellation,
            SendFailure::OpenFailed => ErrorKind::Filesystem,
            SendFailure::ReadFailed => ErrorKind::Filesystem,
            SendFailure::WriteFailed => ErrorKind::Connection,
            SendFailure::ResponseFailed => ErrorKind::Connection,
            SendFailure::Rejected => ErrorKind::Protocol,
            SendFailure::Unexpected => ErrorKind::Protocol,
        }
    }

    /// The kind of failure that the cause is.
    pub fn kind(self) -> (kind: ErrorKind)
        ensures
            kind == self.failure_kind(),
    {
        match self {
            SendFailure::Cancelled => ErrorKind::Cancellation,
            SendFailure::OpenFailed => ErrorKind::Filesystem,
            SendFailure::ReadFailed => ErrorKind::Filesystem,
            SendFailure::WriteFailed => ErrorKind::Connection,
            SendFailure::ResponseFailed => ErrorKind::Connection,
            SendFailure::Rejected => ErrorKind::Protocol,
            SendFailure::Unexpected => ErrorKind::Protocol,
        }
    }
}

/// What the caller reports.
#[derive(Clone, Copy, Debug, PartialEq, Eq, Structural)]
pub enum SendEvent {
    /// The file was opened.
    Opened,
    /// The file could not be opened.
    OpenFailed,
    /// This many bytes were read from the file and written to the socket.
    Sent(usize),
    /// The file gave no byte: it is shorter than announced.
    EndOfFile,
    /// The file could not be read.
    ReadFailed,
    /// The socket could not be written to.
    WriteFailed,
    /// The receiver responded; whether the response confirms the file.
    Response(bool),
    /// No response could be read.
    ResponseFailed,
}

/// What the caller does next.
#[derive(Clone, Copy, Debug, PartialEq, Eq, Structural)]
pub enum SendStep {
    /// Open the file with this index.
    Open { index: usize },
    /// Read up to `max_bytes` bytes from that file and write them to the socket.
    Send { index: usize, max_bytes: usize },
    /// Read the receiver's response to that file.
    AwaitConfirmation { index: usize },
    /// Tell the user interface that all files were sent.
    Finish,
    /// Close the connection and report the failure.
    Fail { cause: SendFailure },
    /// Nothing: the transfer is over.
    Closed,
}

/// The state of a [`Sending`].
pub struct SendingModel {
    pub files: Seq<FileInfoModel>,
    pub index: nat,
    pub file_sent: nat,
    pub total_sent: nat,
    pub phase: SendPhase,
}

impl SendingModel {
    /// What holds of every state that a sending goes through.
    pub open spec fn wf(self) -> bool {
        &&& self.index <= self.files.len()
        &&& bytes_of(self.files) <= u64::MAX
        &&& self.total_sent <= bytes_of(self.files.take(self.index as int)) + self.file_sent
        &&& self.index == self.files.len() ==> self.file_sent == 0
        &&& self.index < self.files.len() ==> self.file_sent <= self.files[self.index as int].size
        &&& match self.phase {
            SendPhase::Opening => self.index < self.files.len() && self.file_sent == 0,
            SendPhase::Streaming => self.index < self.files.len() && self.file_sent
                < self.files[self.index as int].size,
            SendPhase::AwaitingConfirmation => self.index < self.files.len(),
            SendPhase::Finished => self.index == self.files.len(),
            SendPhase::Failed => true,
        }
    }

    /// The most bytes that the next read may bring.
    pub open spec fn next_read(self) -> nat {
        let remaining = (self.files[self.index as int].size - self.file_sent) as nat;
        if remaining < CHUNK_SIZE {
            remaining
        } else {
            CHUNK_SIZE as nat
        }
    }

    /// This state given up.
    pub open spec fn failed(self, cause: SendFailure) -> (SendingModel, SendStep) {
        (SendingModel { phase: SendPhase::Failed, ..self }, SendStep::Fail { cause })
    }

    /// The state and step on coming to the file with this index.
    pub open spec fn entering(self, index: nat) -> (SendingModel, SendStep) {
        let at = SendingModel { index, file_sent: 0, ..self };
        if index >= self.files.len() {
            (SendingModel { phase: SendPhase::Finished, ..at }, SendStep::Finish)
        } else {
            (
                SendingModel { phase: SendPhase::Opening, ..at },
                SendStep::Open { index: index as usize },
            )
        }
    }

    /// The state and step when the current file has been sent so far. The
    /// cancellation is looked at before every read.
    pub open spec fn streaming_on(self, cancelled: bool) -> (SendingModel, SendStep) {
        if self.file_sent < self.files[self.index as int].size {
            if cancelled {
                self.failed(SendFailure::Cancelled)
            } else {
                (
                    SendingModel { phase: SendPhase::Streaming, ..self },
                    SendStep::Send { index: self.index as usize, max_bytes: self.next_read() as usize },
                )
            }
        } else {
            (
                SendingModel { phase: SendPhase::AwaitingConfirmation, ..self },
                SendStep::AwaitConfirmation { index: self.index as usize },
            )
        }
    }

    /// The state and step after an event.
    pub open spec fn advanced(self, event: SendEvent, cancelled: bool) -> (SendingModel, SendStep) {
        match self.phase {
            SendPhase::Opening => match event {
                SendEvent::Opened => self.streaming_on(cancelled),
                SendEvent::OpenFailed => self.failed(SendFailure::OpenFailed),
                _ => self.failed(SendFailure::Unexpected),
            },
            SendPhase::Streaming => match event {
                SendEvent::Sent(bytes) => if 0 < bytes <= self.next_read() {
                    SendingModel {
                        file_sent: self.file_sent + bytes as nat,
                        total_sent: self.total_sent + bytes as nat,
                        ..self
                    }.streaming_on(cancelled)
                } else {
                    self.failed(SendFailure::Unexpected)
                },
                SendEvent::EndOfFile => (
                    SendingModel { phase: SendPhase::AwaitingConfirmation, ..self },
                    SendStep::AwaitConfirmation { index: self.index as usize },
                ),
                SendEvent::ReadFailed => self.failed(SendFailure::ReadFailed),
                SendEvent::WriteFailed => self.failed(SendFailure::WriteFailed),
                _ => self.failed(SendFailure::Unexpected),
            },
            SendPhase::AwaitingConfirmation => match event {
                SendEvent::Response(confirmed) => if confirmed {
                    self.entering(self.index + 1)
                } else {
                    self.failed(SendFailure::Rejected)
                },
                SendEvent::ResponseFailed => self.failed(SendFailure::ResponseFailed),
                _ => self.failed(SendFailure::Unexpected),
            },
            SendPhase::Finished => (self, SendStep::Closed),
            SendPhase::Failed => (self, SendStep::Closed),
        }
    }
}

/// The state and first step of the sending of `files`.
pub open spec fn send_started(files: Seq<FileInfoModel>) -> (SendingModel, SendStep) {
    SendingModel {
        files,
        index: 0,
        file_sent: 0,
        total_sent: 0,
        phase: SendPhase::Opening,
    }.entering(0)
}

/// The bytes of the first `n` files are no more than the bytes of all.
pub proof fn lemma_bytes_of_grows(files: Seq<FileInfoModel>, n: int)
    requires
        0 <= n <= files.len(),
    ensures
        bytes_of(files.take(n)) <= bytes_of(files),
        n < files.len() ==> bytes_of(files.take(n + 1)) == bytes_of(files.take(n)) + files[n].size,
    decreases files.len() - n,
{
    if n == files.len() {
        assert(files.take(n) =~= files);
    } else {
        lemma_bytes_of_grows(files, n + 1);
        assert(files.take(n + 1).drop_last() =~= files.take(n));
        assert(files.take(n + 1).last() == files[n]);
    }
}

/// A well-formed state counts no more bytes than its files have.
pub proof fn lemma_sent_bounded(state: SendingModel)
    requires
        state.wf(),
    ensures
        state.total_sent <= bytes_of(state.files),
        state.index < state.files.len() ==> bytes_of(state.files.take(state.index as int))
            + state.files[state.index as int].size <= bytes_of(state.files),
        state.index < state.files.len() ==> bytes_of(state.files.take(state.index as int + 1))
            == bytes_of(state.files.take(state.index as int)) + state.files[state.index as int].size,
{
    lemma_bytes_of_grows(state.files, state.index as int);
    if state.index < state.files.len() {
        lemma_bytes_of_grows(state.files, state.index as int + 1);
    }
}

/// The bytes of all the files together, unless they are more than `u64::MAX`.
pub fn sum_sizes(files: &Vec<FileInfo>) -> (total: Option<u64>)
    ensures
        match total {
            Some(t) => t == bytes_of(files.deep_view()),
            None => bytes_of(files.deep_view()) > u64::MAX,
        },
{
    let mut total: u64 = 0;
    let mut i: usize = 0;
    proof {
        assert(files.deep_view().take(0) =~= Seq::<FileInfoModel>::empty());
    }
    while i < files.len()
        invariant
            i <= files.len(),
            total == bytes_of(files.deep_view().take(i as int)),
        decreases files.len() - i,
    {
        proof {
            lemma_bytes_of_grows(files.deep_view(), i as int);
            lemma_bytes_of_grows(files.deep_view(), i + 1);
        }
        match total.checked_add(files[i].size) {
            Some(sum) => {
                total = sum;
            },
            None => {
                return None;
            },
        }
        i += 1;
    }
    proof {
        assert(files.deep_view().take(files.len() as int) =~= files.deep_view());
    }
    Some(total)
}

/// The sending of the files of one transfer.
pub struct Sending {
    files: Vec<FileInfo>,
    total_bytes: u64,
    index: usize,
    file_sent: u64,
    total_sent: u64,
    phase: SendPhase,
}

impl View for Sending {
    type V = SendingModel;

    closed spec fn view(&self) -> SendingModel {
        SendingModel {
            files: self.files.deep_view(),
            index: self.index as nat,
            file_sent: self.file_sent as nat,
            total_sent: self.total_sent as nat,
            phase: self.phase,
        }
    }
}

impl Sending {
    /// What holds of every sending: its state is well-formed, and the total it
    /// keeps is the bytes of its files.
    pub closed spec fn wf(&self) -> bool {
        self@.wf() && self.total_bytes == bytes_of(self.files.deep_view())
    }

    /// A sending is in a state that sendings go through.
    pub proof fn lemma_wf(&self)
        requires
            self.wf(),
        ensures
            self@.wf(),
    {
    }

    /// What holds of the counts of a sending in every phase.
    spec fn tallied(&self) -> bool {
        &&& self.total_bytes == bytes_of(self.files.deep_view())
        &&& self.index <= self.files.len()
        &&& self.total_sent <= bytes_of(self.files.deep_view().take(self.index as int))
            + self.file_sent
        &&& self.index == self.files.len() ==> self.file_sent == 0
        &&& self.index < self.files.len() ==> self.file_sent <= self.files[self.index as int].size
    }

    /// Begins the sending of `files`, and says what to do first. The bytes of
    /// the files must add up to no more than `u64::MAX`.
    pub fn begin(files: Vec<FileInfo>) -> (r: Result<(Sending, SendStep), ProtocolError>)
        ensures
            match r {
                Ok((sending, step)) => {
                    &&& bytes_of(files.deep_view()) <= u64::MAX
                    &&& sending.wf()
                    &&& (sending@, step) == send_started(files.deep_view())
                },
                Err(e) => e is SizeOverflow && bytes_of(files.deep_view()) > u64::MAX,
            },
    {
        let total = match sum_sizes(&files) {
            Some(total) => total,
            None => {
                return Err(ProtocolError::SizeOverflow);
            },
        };
        proof {
            assert(files.deep_view().take(0) =~= Seq::<FileInfoModel>::empty());
        }
        let mut sending = Sending {
            files,
            total_bytes: total,
            index: 0,
            file_sent: 0,
            total_sent: 0,
            phase: SendPhase::Opening,
        };
        let step = sending.enter(0);
        Ok((sending, step))
    }

    /// Comes to the file with this index.
    fn enter(&mut self, index: usize) -> (step: SendStep)
        requires
            index <= old(self).files.len(),
            bytes_of(old(self).files.deep_view()) == old(self).total_bytes,
            old(self).total_sent <= bytes_of(old(self).files.deep_view().take(index as int)),
        ensures
            final(self).wf(),
            (final(self)@, step) == old(self)@.entering(index as nat),
    {
        self.index = index;
        self.file_sent = 0;
        if index >= self.files.len() {
            self.phase = SendPhase::Finished;
            SendStep::Finish
        } else {
            self.phase = SendPhase::Opening;
            SendStep::Open { index }
        }
    }

    /// Gives the transfer up.
    fn fail(&mut self, cause: SendFailure) -> (step: SendStep)
        requires
            old(self).tallied(),
        ensures
            final(self).wf(),
            (final(self)@, step) == old(self)@.failed(cause),
    {
        self.phase = SendPhase::Failed;
        SendStep::Fail { cause }
    }

    /// Goes on with the current file: sends on, or awaits its confirmation when
    /// it was sent in full.
    fn stream_on(&mut self, cancelled: bool) -> (step: SendStep)
        requires
            old(self).tallied(),
            old(self).index < old(self).files.len(),
        ensures
            final(self).wf(),
            (final(self)@, step) == old(self)@.streaming_on(cancelled),
    {
        let size = self.files[self.index].size;
        if self.file_sent < size {
            if cancelled {
                self.fail(SendFailure::Cancelled)
            } else {
                let remaining: u64 = size - self.file_sent;
                let max_bytes: usize = if remaining < CHUNK_SIZE as u64 {
                    remaining as usize
                } else {
                    CHUNK_SIZE
                };
                self.phase = SendPhase::Streaming;
                SendStep::Send { index: self.index, max_bytes }
            }
        } else {
            self.phase = SendPhase::AwaitingConfirmation;
            SendStep::AwaitConfirmation { index: self.index }
        }
    }

    /// Takes what the caller reports of the last step, and says what to do
    /// next; see [`SendingModel::advanced`].
    pub fn advance(&mut self, event: SendEvent, cancelled: bool) -> (step: SendStep)
        requires
            old(self).wf(),
        ensures
            final(self).wf(),
            (final(self)@, step) == old(self)@.advanced(event, cancelled),
    {
        proof {
            lemma_sent_bounded(self@);
            assert(self.files.deep_view().len() == self.files.len());
        }
        match self.phase {
            SendPhase::Opening => match event {
                SendEvent::Opened => self.stream_on(cancelled),
                SendEvent::OpenFailed => self.fail(SendFailure::OpenFailed),
                _ => self.fail(SendFailure::Unexpected),
            },
            SendPhase::Streaming => match event {
                SendEvent::Sent(bytes) => {
                    let size = self.files[self.index].size;
                    let remaining: u64 = size - self.file_sent;
                    if 0 < bytes && bytes <= CHUNK_SIZE && bytes as u64 <= remaining {
                        self.file_sent = self.file_sent + bytes as u64;
                        self.total_sent = self.total_sent + bytes as u64;
                        self.stream_on(cancelled)
                    } else {
                        self.fail(SendFailure::Unexpected)
                    }
                },
                SendEvent::EndOfFile => {
                    self.phase = SendPhase::AwaitingConfirmation;
                    SendStep::AwaitConfirmation { index: self.index }
                },
                SendEvent::ReadFailed => self.fail(SendFailure::ReadFailed),
                SendEvent::WriteFailed => self.fail(SendFailure::WriteFailed),
                _ => self.fail(SendFailure::Unexpected),
            },
            SendPhase::AwaitingConfirmation => match event {
                SendEvent::Response(confirmed) => {
                    if confirmed {
                        let next = self.index + 1;
                        self.enter(next)
                    } else {
                        self.fail(SendFailure::Rejected)
                    }
                },
                SendEvent::ResponseFailed => self.fail(SendFailure::ResponseFailed),
                _ => self.fail(SendFailure::Unexpected),
            },
            SendPhase::Finished => SendStep::Closed,
            SendPhase::Failed => SendStep::Closed,
        }
    }

    /// Where the sending stands.
    pub fn phase(&self) -> (phase: SendPhase)
        ensures
            phase == self@.phase,
    {
        self.phase
    }

    /// The files to send.
    pub fn files(&self) -> (files: &Vec<FileInfo>)
        ensures
            files.deep_view() == self@.files,
    {
        &self.files
    }

    /// The index of the current file.
    pub fn file_index(&self) -> (index: usize)
        ensures
            index == self@.index,
    {
        self.index
    }

    /// The bytes of all files that were sent.
    pub fn total_sent(&self) -> (bytes: u64)
        ensures
            bytes == self@.total_sent,
    {
        self.total_sent
    }

    /// The bytes of all files of the transfer.
    pub fn total_bytes(&self) -> (bytes: u64)
        requires
            self.wf(),
        ensures
            bytes == bytes_of(self@.files),
    {
        self.total_bytes
    }
}

/// How a sender starts.
pub enum SendStart {
    /// The selection keeps no file: there is nothing to connect for.
    NothingToSend,
    /// Connect, send the header, and, when the receiver is ready, the decision
    /// list; then stream the files.
    Connect(SendPlan),
}

/// What was settled for sending a transfer.
pub struct SendPlan {
    /// The header, which offers every file.
    pub header: TransferHeader,
    /// The decision list, which names the files that are sent.
    pub decision: Vec<String>,
    /// The sending of those files.
    pub sending: Sending,
    /// What to do first once the decision list is sent.
    pub first_step: SendStep,
}

/// Settles how a transfer is sent: every file is offered, and the files that
/// the selection keeps are named in the decision list and sent, in their order.
/// Sizes that add up to more than `u64::MAX` are refused.
pub fn plan_send(
    sender_name: &str,
    sender_role: &Option<String>,
    files: &Vec<FileInfo>,
    folder_name: Option<String>,
    selection: &Option<Vec<String>>,
) -> (r: Result<SendStart, ProtocolError>)
    ensures
        ({
            let chosen = selected(files.deep_view(), selection.deep_view());
            if chosen.len() == 0 {
                r matches Ok(SendStart::NothingToSend)
            } else if bytes_of(chosen) > u64::MAX {
                r matches Err(e) && e is SizeOverflow
            } else {
                r matches Ok(SendStart::Connect(plan)) && {
                    &&& plan.header.photographer@ == sender_name@
                    &&& plan.header.sender_role.deep_view() == sender_role.deep_view()
                    &&& plan.header.files.deep_view() == files.deep_view().map_values(
                        |f: FileInfoModel| f.metadata(),
                    )
                    &&& plan.header.is_folder_transfer == folder_name is Some
                    &&& plan.header.folder_name == folder_name
                    &&& plan.decision.deep_view() == chosen.map_values(
                        |f: FileInfoModel| f.relative_path,
                    )
                    &&& plan.sending.wf()
                    &&& (plan.sending@, plan.first_step) == send_started(chosen)
                }
            }
        }),
{
    let chosen = select_files(files, selection);
    if chosen.len() == 0 {
        return Ok(SendStart::NothingToSend);
    }
    let decision = decision_for(&chosen);
    match Sending::begin(chosen) {
        Err(e) => Err(e),
        Ok((sending, first_step)) => {
            let header = build_header(sender_name, sender_role, files, folder_name);
            Ok(SendStart::Connect(SendPlan { header, decision, sending, first_step }))
        },
    }
}

/// Every state that follows a well-formed state is well-formed, and never
/// counts more bytes than the files of the transfer have.
pub proof fn lemma_send_advanced_wf(state: SendingModel, event: SendEvent, cancelled: bool)
    requires
        state.wf(),
    ensures
        state.advanced(event, cancelled).0.wf(),
        state.advanced(event, cancelled).0.files == state.files,
        state.advanced(event, cancelled).0.total_sent <= bytes_of(state.files),
{
    lemma_sent_bounded(state);
    let after = state.advanced(event, cancelled).0;
    assert(after.wf());
    lemma_sent_bounded(after);
}

/// A cancellation that is seen before a read gives the transfer up, and from
/// then on no step is taken.
pub proof fn lemma_send_cancel_stops(state: SendingModel, bytes: usize, later: SendEvent, again: bool)
    requires
        state.wf(),
        state.phase == SendPhase::Streaming,
        0 < bytes <= state.next_read(),
        state.file_sent + bytes < state.files[state.index as int].size,
    ensures
        state.advanced(SendEvent::Sent(bytes), true).1 == (SendStep::Fail {
            cause: SendFailure::Cancelled,
        }),
        state.advanced(SendEvent::Sent(bytes), true).0.advanced(later, again) == (
            state.advanced(SendEvent::Sent(bytes), true).0,
            SendStep::Closed,
        ),
{
}

/// The next file is begun only after the receiver confirmed the one before,
/// and a response that does not confirm gives the transfer up.
pub proof fn lemma_send_needs_confirmation(state: SendingModel, event: SendEvent, cancelled: bool)
    requires
        state.wf(),
        state.advanced(event, cancelled).0.index > state.index,
    ensures
        state.phase == SendPhase::AwaitingConfirmation,
        event == SendEvent::Response(true),
        state.advanced(SendEvent::Response(false), cancelled).1 == (SendStep::Fail {
            cause: SendFailure::Rejected,
        }),
{
}

} // verus!
