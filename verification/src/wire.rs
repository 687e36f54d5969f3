//! The messages of the wire protocol and their framing.
//!
//! Every message but the file bytes is a frame: a length of four bytes, most
//! significant first, and a payload of JSON text of that length. A header length
//! of zero asks the receiver who it is.

use crate::text::equals;
use vstd::prelude::*;

verus! {

/// The largest number of bytes read from or written to the socket at once.
pub const CHUNK_SIZE: usize = 4194304;

/// What one file of a transfer is announced with.
#[derive(Clone, Debug, PartialEq, Eq)]
pub struct FileMetadata {
    pub name: String,
    pub relative_path: String,
    pub size: u64,
}

/// [`FileMetadata`] as a value of specifications.
pub struct FileMetadataModel {
    pub name: Seq<char>,
    pub relative_path: Seq<char>,
    pub size: u64,
}

impl DeepView for FileMetadata {
    type V = FileMetadataModel;

    open spec fn deep_view(&self) -> FileMetadataModel {
        FileMetadataModel {
            name: self.name@,
            relative_path: self.relative_path@,
            size: self.size,
        }
    }
}

impl FileMetadataModel {
    /// The text a decision list names this file by: its relative path, or its
    /// name where the sender gave no relative path.
    pub open spec fn key(self) -> Seq<char> {
        if self.relative_path.len() == 0 {
            self.name
        } else {
            self.relative_path
        }
    }
}

impl FileMetadata {
    /// A copy of this description.
    pub fn duplicate(&self) -> (copy: FileMetadata)
        ensures
            copy.deep_view() == self.deep_view(),
    {
        FileMetadata {
            name: self.name.clone(),
            relative_path: self.relative_path.clone(),
            size: self.size,
        }
    }

    /// The text a decision list names this file by.
    pub fn key(&self) -> (key: &str)
        ensures
            key@ == self.deep_view().key(),
    {
        if self.relative_path.as_str().is_empty() {
            self.name.as_str()
        } else {
            self.relative_path.as_str()
        }
    }
}

/// The first message of a connection: who sends, and which files.
#[derive(Clone, Debug, PartialEq, Eq)]
pub struct TransferHeader {
    pub photographer: String,
    pub files: Vec<FileMetadata>,
    pub is_folder_transfer: bool,
    pub folder_name: Option<String>,
    pub sender_role: Option<String>,
}

/// A file of the offer that the receiver already holds under the same name.
/// `sizes_equal` compares sizes only; contents are never read.
#[derive(Clone, Debug, PartialEq, Eq)]
pub struct DuplicateInfo {
    pub file_name: String,
    pub existing_path: String,
    pub existing_size: u64,
    pub new_size: u64,
    pub sizes_equal: bool,
}

/// [`DuplicateInfo`] as a value of specifications.
pub struct DuplicateModel {
    pub file_name: Seq<char>,
    pub existing_path: Seq<char>,
    pub existing_size: u64,
    pub new_size: u64,
    pub sizes_equal: bool,
}

impl DeepView for DuplicateInfo {
    type V = DuplicateModel;

    open spec fn deep_view(&self) -> DuplicateModel {
        DuplicateModel {
            file_name: self.file_name@,
            existing_path: self.existing_path@,
            existing_size: self.existing_size,
            new_size: self.new_size,
            sizes_equal: self.sizes_equal,
        }
    }
}

impl DuplicateInfo {
    /// A copy of this record.
    pub fn duplicate(&self) -> (copy: DuplicateInfo)
        ensures
            copy.deep_view() == self.deep_view(),
    {
        DuplicateInfo {
            file_name: self.file_name.clone(),
            existing_path: self.existing_path.clone(),
            existing_size: self.existing_size,
            new_size: self.new_size,
            sizes_equal: self.sizes_equal,
        }
    }
}

/// The receiver's answer to a header.
#[derive(Clone, Debug, PartialEq, Eq)]
pub struct AckResponse {
    pub status: String,
    pub folder: Option<String>,
    pub duplicates: Vec<DuplicateInfo>,
    pub resume_folder: Option<String>,
}

/// What a sender learns from probing for duplicates.
#[derive(Clone, Debug, PartialEq, Eq)]
pub struct DuplicateCheckResult {
    pub duplicates: Vec<DuplicateInfo>,
    pub resume_folder: Option<String>,
    pub target_folder: String,
}

/// Who a receiver says it is.
#[derive(Clone, Debug, PartialEq, Eq)]
pub struct ReceiverInfo {
    pub name: String,
    pub role: String,
}

/// Why a message could not be framed, read or accepted.
#[derive(Clone, Debug, PartialEq, Eq)]
pub enum ProtocolError {
    /// The payload is longer than a length prefix can say.
    PayloadTooLong,
    /// The payload is not the JSON text that was expected.
    MalformedJson,
    /// The sizes of the chosen files add up to more than `u64::MAX`.
    SizeOverflow,
    /// The receiver answered with a status other than `ready`; this is it.
    NotReady(String),
}

/// The kinds of failure of a transfer.
#[derive(Clone, Copy, Debug, PartialEq, Eq, Structural)]
pub enum ErrorKind {
    /// The connection could not be made, or broke, or fell silent.
    Connection,
    /// A message was malformed or out of turn.
    Protocol,
    /// The disk refused a folder or a file.
    Filesystem,
    /// The user cancelled; this is no fault.
    Cancellation,
    /// The receiver answered that it is not ready.
    PeerNotReady,
}

impl ProtocolError {
    /// The kind of this failure.
    pub fn kind(&self) -> (kind: ErrorKind)
        ensures
            kind == (if self is NotReady {
                ErrorKind::PeerNotReady
            } else {
                ErrorKind::Protocol
            }),
    {
        match self {
            ProtocolError::NotReady(_) => ErrorKind::PeerNotReady,
            _ => ErrorKind::Protocol,
        }
    }
}

/// The number that four bytes spell, most significant first.
pub open spec fn length_of_prefix(prefix: Seq<u8>) -> int {
    prefix[0] as int * 16777216 + prefix[1] as int * 65536 + prefix[2] as int * 256
        + prefix[3] as int
}

/// The four bytes that spell `length`, most significant first.
pub open spec fn prefix_of_length(length: u32) -> Seq<u8> {
    seq![
        (length / 16777216) as u8,
        ((length / 65536) % 256) as u8,
        ((length / 256) % 256) as u8,
        (length % 256) as u8,
    ]
}

/// A payload behind its length prefix.
pub open spec fn framed(payload: Seq<u8>) -> Seq<u8> {
    prefix_of_length(payload.len() as u32) + payload
}

/// Reads a length prefix.
pub fn decode_length(prefix: [u8; 4]) -> (length: u32)
    ensures
        length == length_of_prefix(prefix@),
{
    let b0: u32 = prefix[0] as u32;
    let b1: u32 = prefix[1] as u32;
    let b2: u32 = prefix[2] as u32;
    let b3: u32 = prefix[3] as u32;
    b0 * 16777216 + b1 * 65536 + b2 * 256 + b3
}

/// Writes a length prefix.
pub fn encode_length(length: u32) -> (prefix: [u8; 4])
    ensures
        prefix@ == prefix_of_length(length),
{
    let prefix: [u8; 4] = [
        (length / 16777216) as u8,
        ((length / 65536) % 256) as u8,
        ((length / 256) % 256) as u8,
        (length % 256) as u8,
    ];
    proof {
        assert(prefix@ =~= prefix_of_length(length));
    }
    prefix
}

/// A length that is written and read again is the same length.
pub proof fn lemma_length_round_trip(length: u32)
    ensures
        prefix_of_length(length).len() == 4,
        length_of_prefix(prefix_of_length(length)) == length,
{
}

/// Four bytes that are read as a length and written again are the same bytes.
pub proof fn lemma_prefix_round_trip(prefix: Seq<u8>)
    requires
        prefix.len() == 4,
    ensures
        0 <= length_of_prefix(prefix) <= u32::MAX,
        prefix_of_length(length_of_prefix(prefix) as u32) == prefix,
{
    let b0 = prefix[0] as int;
    let b1 = prefix[1] as int;
    let b2 = prefix[2] as int;
    let b3 = prefix[3] as int;
    let n = length_of_prefix(prefix);
    assert(n == (b0 * 65536 + b1 * 256 + b2) * 256 + b3);
    assert(n / 256 == b0 * 65536 + b1 * 256 + b2 && n % 256 == b3);
    assert(n / 256 == (b0 * 256 + b1) * 256 + b2);
    assert((n / 256) / 256 == b0 * 256 + b1 && (n / 256) % 256 == b2);
    assert(n / 65536 == (n / 256) / 256);
    assert((n / 65536) / 256 == b0 && (n / 65536) % 256 == b1);
    assert(n / 16777216 == (n / 65536) / 256);
    assert(prefix_of_length(n as u32) =~= prefix);
}

/// The length of a payload as a length prefix says it. A length of more than
/// `u32::MAX` bytes cannot be said.
pub fn payload_length(length: usize) -> (r: Result<u32, ProtocolError>)
    ensures
        r is Ok <==> length <= u32::MAX,
        r matches Ok(n) ==> n == length,
        r matches Err(e) ==> e is PayloadTooLong,
{
    if length > u32::MAX as usize {
        Err(ProtocolError::PayloadTooLong)
    } else {
        Ok(length as u32)
    }
}

/// Puts a payload behind its length prefix. A payload of more than `u32::MAX`
/// bytes cannot be framed.
pub fn frame(payload: &Vec<u8>) -> (r: Result<Vec<u8>, ProtocolError>)
    ensures
        r is Ok <==> payload.len() <= u32::MAX,
        r matches Ok(bytes) ==> bytes@ == framed(payload@),
        r matches Err(e) ==> e is PayloadTooLong,
{
    let length = match payload_length(payload.len()) {
        Ok(length) => length,
        Err(e) => {
            return Err(e);
        },
    };
    let prefix = encode_length(length);
    let mut bytes: Vec<u8> = Vec::new();
    bytes.push(prefix[0]);
    bytes.push(prefix[1]);
    bytes.push(prefix[2]);
    bytes.push(prefix[3]);
    let ghost head = bytes@;
    assert(head =~= prefix_of_length(payload.len() as u32));
    let mut i: usize = 0;
    while i < payload.len()
        invariant
            i <= payload.len(),
            bytes@ == head + payload@.subrange(0, i as int),
        decreases payload.len() - i,
    {
        bytes.push(payload[i]);
        i += 1;
        proof {
            assert(payload@.subrange(0, i as int) =~= payload@.subrange(0, i - 1).push(
                payload@[i - 1],
            ));
        }
    }
    proof {
        assert(payload@.subrange(0, payload.len() as int) =~= payload@);
    }
    Ok(bytes)
}

/// Whether `bytes` hold the two letters `OK` next to each other.
pub open spec fn holds_ok_marker(bytes: Seq<u8>) -> bool {
    exists|i: int| 0 <= i && i + 1 < bytes.len() && #[trigger] bytes[i] == 79 && bytes[i + 1] == 75
}

/// Whether a receiver's response to a file confirms it: whether it holds the
/// marker `OK` anywhere.
pub fn confirms_file(response: &[u8]) -> (confirmed: bool)
    ensures
        confirmed == holds_ok_marker(response@),
{
    if response.len() < 2 {
        return false;
    }
    let mut i: usize = 0;
    while i + 1 < response.len()
        invariant
            i + 1 <= response.len(),
            forall|j: int| 0 <= j < i ==> !(#[trigger] response@[j] == 79 && response@[j + 1] == 75),
        decreases response.len() - i,
    {
        if response[i] == 79 && response[i + 1] == 75 {
            return true;
        }
        i += 1;
    }
    false
}

/// The two bytes a receiver confirms a file with.
pub fn ok_marker() -> (marker: [u8; 2])
    ensures
        marker@ == seq![79u8, 75u8],
        holds_ok_marker(marker@),
{
    let marker: [u8; 2] = [79, 75];
    proof {
        assert(marker@ =~= seq![79u8, 75u8]);
        assert(marker@[0int] == 79 && marker@[0int + 1] == 75);
    }
    marker
}

impl AckResponse {
    /// The answer of a receiver that is ready: the duplicates it found, and the
    /// folder of an interrupted transfer where it will resume one.
    pub fn ready(resume_folder: Option<String>, duplicates: Vec<DuplicateInfo>) -> (ack:
        AckResponse)
        ensures
            ack.status@ == "ready"@,
            ack.duplicates == duplicates,
            ack.folder.deep_view() == resume_folder.deep_view(),
            ack.resume_folder.deep_view() == resume_folder.deep_view(),
    {
        let folder = match &resume_folder {
            Some(path) => Some(path.clone()),
            None => None,
        };
        AckResponse { status: "ready".to_owned(), folder, duplicates, resume_folder }
    }

    /// Whether the receiver is ready.
    pub open spec fn is_ready(&self) -> bool {
        self.status@ == "ready"@
    }

    /// Accepts an answer that says `ready`, and hands back the status of any
    /// other.
    pub fn check_ready(&self) -> (r: Result<(), ProtocolError>)
        ensures
            r is Ok <==> self.is_ready(),
            r matches Err(e) ==> e matches ProtocolError::NotReady(status) && status@
                == self.status@,
    {
        if equals(self.status.as_str(), "ready") {
            Ok(())
        } else {
            Err(ProtocolError::NotReady(self.status.clone()))
        }
    }
}

impl DuplicateCheckResult {
    /// What a probe reports from the receiver's answer.
    pub fn from_ack(ack: AckResponse) -> (result: DuplicateCheckResult)
        ensures
            result.duplicates == ack.duplicates,
            result.resume_folder == ack.resume_folder,
            result.target_folder@ == (match ack.folder {
                Some(folder) => folder@,
                None => Seq::<char>::empty(),
            }),
    {
        let target_folder = match ack.folder {
            Some(folder) => folder,
            None => String::new(),
        };
        DuplicateCheckResult {
            duplicates: ack.duplicates,
            resume_folder: ack.resume_folder,
            target_folder,
        }
    }
}

} // verus!
