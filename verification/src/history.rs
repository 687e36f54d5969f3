//! The history of transfers: one record per destination folder, updated in
//! place while a transfer goes on, and capped when it is stored.

use crate::config::{stored_counter, ReceiverConfig};
use crate::seqs::{first_index, lemma_first_index, lemma_first_index_is};
use crate::temp::FolderTotals;
use crate::text::equals;
use vstd::prelude::*;

verus! {

/// The most records that are stored of a history.
pub const HISTORY_CAP: usize = 500;

/// How a transfer that was received ended, or stands.
#[derive(Clone, Copy, Debug, PartialEq, Eq, Structural)]
pub enum TransferStatus {
    Complete,
    Partial,
    Error,
}

impl Default for TransferStatus {
    fn default() -> (status: TransferStatus)
        ensures
            status == TransferStatus::Complete,
    {
        TransferStatus::Complete
    }
}

/// How a transfer that was sent ended.
#[derive(Clone, Copy, Debug, PartialEq, Eq, Structural)]
pub enum SendStatus {
    Success,
    Error,
    Cancelled,
}

impl Default for SendStatus {
    fn default() -> (status: SendStatus)
        ensures
            status == SendStatus::Success,
    {
        SendStatus::Success
    }
}

/// The status that a word of the user interface stands for: `error` and
/// `cancelled` for themselves, every other word for success.
pub fn send_status_of(word: &str) -> (status: SendStatus)
    ensures
        status == (if word@ == "error"@ {
            SendStatus::Error
        } else if word@ == "cancelled"@ {
            SendStatus::Cancelled
        } else {
            SendStatus::Success
        }),
{
    if equals(word, "error") {
        SendStatus::Error
    } else if equals(word, "cancelled") {
        SendStatus::Cancelled
    } else {
        SendStatus::Success
    }
}

/// A transfer that was received. `timestamp` counts milliseconds from the Unix
/// epoch; `folder` is the path of the destination folder.
#[derive(Clone, Debug, PartialEq, Eq)]
pub struct TransferRecord {
    pub transfer_id: String,
    pub timestamp: i64,
    pub photographer: String,
    pub file_count: usize,
    pub total_size: u64,
    pub folder: String,
    pub day: Option<String>,
    pub status: TransferStatus,
    pub source_role: Option<String>,
}

/// [`TransferRecord`] as a value of specifications.
pub struct TransferRecordModel {
    pub transfer_id: Seq<char>,
    pub timestamp: i64,
    pub photographer: Seq<char>,
    pub file_count: usize,
    pub total_size: u64,
    pub folder: Seq<char>,
    pub day: Option<Seq<char>>,
    pub status: TransferStatus,
    pub source_role: Option<Seq<char>>,
}

impl DeepView for TransferRecord {
    type V = TransferRecordModel;

    open spec fn deep_view(&self) -> TransferRecordModel {
        TransferRecordModel {
            transfer_id: self.transfer_id@,
            timestamp: self.timestamp,
            photographer: self.photographer@,
            file_count: self.file_count,
            total_size: self.total_size,
            folder: self.folder@,
            day: self.day.deep_view(),
            status: self.status,
            source_role: self.source_role.deep_view(),
        }
    }
}

/// A transfer that a receiver sent on to another.
#[derive(Clone, Debug, PartialEq, Eq)]
pub struct SentRecord {
    pub timestamp: i64,
    pub target_name: String,
    pub file_count: usize,
    pub total_size: u64,
    pub folder_name: Option<String>,
}

/// A transfer that a sender sent.
#[derive(Clone, Debug, PartialEq, Eq)]
pub struct SendRecord {
    pub timestamp: i64,
    pub target_name: String,
    pub target_role: String,
    pub file_count: usize,
    pub total_size: u64,
    pub status: SendStatus,
    pub error_message: Option<String>,
}

/// A copy of an optional text.
pub fn copy_of(text: &Option<String>) -> (copy: Option<String>)
    ensures
        copy.deep_view() == text.deep_view(),
{
    match text {
        Some(t) => Some(t.clone()),
        None => None,
    }
}

impl TransferRecord {
    /// A copy of this record.
    pub fn duplicate(&self) -> (copy: TransferRecord)
        ensures
            copy.deep_view() == self.deep_view(),
    {
        TransferRecord {
            transfer_id: self.transfer_id.clone(),
            timestamp: self.timestamp,
            photographer: self.photographer.clone(),
            file_count: self.file_count,
            total_size: self.total_size,
            folder: self.folder.clone(),
            day: copy_of(&self.day),
            status: self.status,
            source_role: copy_of(&self.source_role),
        }
    }
}

impl TransferRecordModel {
    /// This record brought up to date by a newer one for the same folder: time,
    /// counts and status are the newer record's, the rest stays.
    pub open spec fn refreshed(self, newer: TransferRecordModel) -> TransferRecordModel {
        TransferRecordModel {
            timestamp: newer.timestamp,
            file_count: newer.file_count,
            total_size: newer.total_size,
            status: newer.status,
            ..self
        }
    }
}

/// The index of the first record for `folder`, or the length of the history.
pub open spec fn index_of_folder(history: Seq<TransferRecordModel>, folder: Seq<char>) -> int {
    first_index(history, |r: TransferRecordModel| r.folder == folder)
}

/// The history after `record` was saved: the first record for the same folder
/// is brought up to date where there is one, else `record` is added at the end.
pub open spec fn saved(history: Seq<TransferRecordModel>, record: TransferRecordModel) -> Seq<
    TransferRecordModel,
> {
    let at = index_of_folder(history, record.folder);
    if at < history.len() {
        history.update(at, history[at].refreshed(record))
    } else {
        history.push(record)
    }
}

/// How many records the history holds for `folder`.
pub open spec fn records_for(history: Seq<TransferRecordModel>, folder: Seq<char>) -> nat
    decreases history.len(),
{
    if history.len() == 0 {
        0
    } else {
        records_for(history.drop_last(), folder) + (if history.last().folder == folder {
            1nat
        } else {
            0nat
        })
    }
}

/// The history without the records that `drop` names, in the same order.
pub open spec fn without(
    history: Seq<TransferRecordModel>,
    drop: spec_fn(TransferRecordModel) -> bool,
) -> Seq<TransferRecordModel>
    decreases history.len(),
{
    if history.len() == 0 {
        Seq::empty()
    } else if drop(history.last()) {
        without(history.drop_last(), drop)
    } else {
        without(history.drop_last(), drop).push(history.last())
    }
}

/// The last `cap` elements of `s` at most, the last one first.
pub open spec fn newest_first<T>(s: Seq<T>, cap: nat) -> Seq<T> {
    Seq::new(
        if s.len() <= cap {
            s.len()
        } else {
            cap
        },
        |i: int| s[s.len() - 1 - i],
    )
}

/// The index of the first record for `folder`, or the length of the history.
fn find_folder(history: &Vec<TransferRecord>, folder: &str) -> (at: usize)
    ensures
        at == index_of_folder(history.deep_view(), folder@),
        at <= history.len(),
{
    let ghost p = |r: TransferRecordModel| r.folder == folder@;
    let mut i: usize = 0;
    while i < history.len()
        invariant
            i <= history.len(),
            p == (|r: TransferRecordModel| r.folder == folder@),
            forall|j: int| 0 <= j < i ==> !p(#[trigger] history.deep_view()[j]),
        decreases history.len() - i,
    {
        if equals(history[i].folder.as_str(), folder) {
            proof {
                assert(p(history.deep_view()[i as int]));
                lemma_first_index_is(history.deep_view(), p, i as int);
            }
            return i;
        }
        i += 1;
    }
    proof {
        lemma_first_index_is(history.deep_view(), p, i as int);
    }
    i
}

/// Saves the state of a transfer: brings the record of its folder up to date,
/// or adds `record` where the folder has none yet.
pub fn save_to_history(history: &mut Vec<TransferRecord>, record: TransferRecord)
    ensures
        final(history).deep_view() == saved(old(history).deep_view(), record.deep_view()),
        folders_are_unique(old(history).deep_view()) ==> folders_are_unique(
            final(history).deep_view(),
        ),
{
    proof {
        if folders_are_unique(history.deep_view()) {
            lemma_saved_keeps_unique(history.deep_view(), record.deep_view());
        }
    }
    let ghost before = history.deep_view();
    let at = find_folder(history, record.folder.as_str());
    if at < history.len() {
        let old = &history[at];
        let refreshed = TransferRecord {
            transfer_id: old.transfer_id.clone(),
            timestamp: record.timestamp,
            photographer: old.photographer.clone(),
            file_count: record.file_count,
            total_size: record.total_size,
            folder: old.folder.clone(),
            day: copy_of(&old.day),
            status: record.status,
            source_role: copy_of(&old.source_role),
        };
        history.set(at, refreshed);
        proof {
            assert(history.deep_view() =~= before.update(
                at as int,
                before[at as int].refreshed(record.deep_view()),
            ));
        }
    } else {
        history.push(record);
        proof {
            assert(history.deep_view() =~= before.push(record.deep_view()));
        }
    }
}

/// Records a transfer as finished: the records of its temp folder leave the
/// history, and `record`, which names the final folder, is added at the end.
pub fn record_completion(history: &mut Vec<TransferRecord>, temp_folder: &str, record: TransferRecord)
    ensures
        final(history).deep_view() == without(
            old(history).deep_view(),
            |r: TransferRecordModel| r.folder == temp_folder@,
        ).push(record.deep_view()),
{
    let ghost before = history.deep_view();
    let ghost drop = |r: TransferRecordModel| r.folder == temp_folder@;
    let mut kept: Vec<TransferRecord> = Vec::new();
    let mut i: usize = 0;
    proof {
        assert(before.take(0) =~= Seq::<TransferRecordModel>::empty());
    }
    while i < history.len()
        invariant
            i <= history.len(),
            history.deep_view() == before,
            drop == (|r: TransferRecordModel| r.folder == temp_folder@),
            kept.deep_view() == without(before.take(i as int), drop),
        decreases history.len() - i,
    {
        let ghost so_far = kept.deep_view();
        proof {
            assert(before.take(i + 1).drop_last() =~= before.take(i as int));
            assert(before.take(i + 1).last() == history[i as int].deep_view());
        }
        if !equals(history[i].folder.as_str(), temp_folder) {
            let copy = history[i].duplicate();
            kept.push(copy);
            proof {
                assert(kept.deep_view() =~= so_far.push(copy.deep_view()));
            }
        }
        i += 1;
    }
    let ghost filtered = kept.deep_view();
    proof {
        assert(before.take(before.len() as int) =~= before);
    }
    kept.push(record);
    proof {
        assert(kept.deep_view() =~= filtered.push(record.deep_view()));
    }
    *history = kept;
}

/// What is stored of a history: its newest records, the newest first, and no
/// more than [`HISTORY_CAP`] of them.
pub fn history_to_save<T>(history: Vec<T>) -> (stored: Vec<T>)
    ensures
        stored@ == newest_first(history@, HISTORY_CAP as nat),
{
    let ghost all = history@;
    let mut rest = history;
    let mut stored: Vec<T> = Vec::new();
    while stored.len() < HISTORY_CAP && rest.len() > 0
        invariant
            stored.len() <= HISTORY_CAP,
            stored.len() + rest.len() == all.len(),
            rest@ == all.take(rest.len() as int),
            forall|i: int| 0 <= i < stored.len() ==> stored@[i] == all[all.len() - 1 - i],
        decreases rest.len(),
    {
        let ghost n = rest.len();
        let last = rest.pop();
        match last {
            Some(record) => {
                stored.push(record);
            },
            None => {},
        }
        proof {
            assert(rest@ =~= all.take(n - 1));
        }
    }
    proof {
        assert(stored@ =~= newest_first(all, HISTORY_CAP as nat));
    }
    stored
}

/// What is stored after one more transfer was sent on: the history with
/// `record` as its newest, capped as [`history_to_save`] says.
pub fn add_sent_record(history: Vec<SentRecord>, record: SentRecord) -> (stored: Vec<SentRecord>)
    ensures
        stored@ == newest_first(history@.push(record), HISTORY_CAP as nat),
{
    let mut history = history;
    history.push(record);
    history_to_save(history)
}

/// What is stored after one more transfer was sent: the history with `record`
/// as its newest, capped as [`history_to_save`] says.
pub fn add_send_record(history: Vec<SendRecord>, record: SendRecord) -> (stored: Vec<SendRecord>)
    ensures
        stored@ == newest_first(history@.push(record), HISTORY_CAP as nat),
{
    let mut history = history;
    history.push(record);
    history_to_save(history)
}

/// Clears the history of one day, or all of it, and forgets the numbering of
/// what was cleared: the day has no number stored any more, so that its next
/// folder is the first again; where all is cleared, no day has, and the
/// numbering that is not kept by day starts at 1.
pub fn clear_history(
    history: &mut Vec<TransferRecord>,
    config: &mut ReceiverConfig,
    day: &Option<String>,
)
    ensures
        final(config).same_settings(old(config)),
        match day.deep_view() {
            Some(label) => {
                &&& final(history).deep_view() == without(
                    old(history).deep_view(),
                    |r: TransferRecordModel| r.day == Some(label),
                )
                &&& final(config).folder_counter == old(config).folder_counter
                &&& stored_counter(final(config).day_counters@, label) is None
                &&& forall|other: Seq<char>|
                    other != label ==> stored_counter(final(config).day_counters@, other)
                        == stored_counter(old(config).day_counters@, other)
            },
            None => {
                &&& final(history)@.len() == 0
                &&& final(config).folder_counter == 1
                &&& final(config).day_counters@.len() == 0
            },
        },
{
    match day {
        Some(label) => {
            let ghost before = history.deep_view();
            let ghost drop = |r: TransferRecordModel| r.day == Some(label@);
            let mut kept: Vec<TransferRecord> = Vec::new();
            let mut i: usize = 0;
            proof {
                assert(before.take(0) =~= Seq::<TransferRecordModel>::empty());
            }
            while i < history.len()
                invariant
                    i <= history.len(),
                    history.deep_view() == before,
                    drop == (|r: TransferRecordModel| r.day == Some(label@)),
                    kept.deep_view() == without(before.take(i as int), drop),
                decreases history.len() - i,
            {
                let ghost so_far = kept.deep_view();
                proof {
                    assert(before.take(i + 1).drop_last() =~= before.take(i as int));
                    assert(before.take(i + 1).last() == history[i as int].deep_view());
                }
                let same_day = match &history[i].day {
                    Some(d) => equals(d.as_str(), label.as_str()),
                    None => false,
                };
                if !same_day {
                    let copy = history[i].duplicate();
                    kept.push(copy);
                    proof {
                        assert(kept.deep_view() =~= so_far.push(copy.deep_view()));
                    }
                }
                i += 1;
            }
            proof {
                assert(before.take(before.len() as int) =~= before);
            }
            *history = kept;
            config.reset_day_counter(label.as_str());
        },
        None => {
            history.clear();
            config.reset_all_counters();
        },
    }
}

/// What a look at the disk tells of the folder of a record.
#[derive(Clone, Copy, Debug, PartialEq, Eq, Structural)]
pub enum FolderState {
    /// The folder is gone.
    Missing,
    /// The folder is there but cannot be listed.
    Unreadable,
    /// The folder is there and holds this.
    Holds(FolderTotals),
}

impl TransferRecordModel {
    /// This record brought in line with what the disk tells of its folder: the
    /// counts are those of the disk, none for a folder that is gone; a folder
    /// that holds files stands for a complete transfer; of a folder that cannot
    /// be listed nothing is learned.
    pub open spec fn seen_as(self, state: FolderState) -> TransferRecordModel {
        match state {
            FolderState::Missing => TransferRecordModel { file_count: 0, total_size: 0, ..self },
            FolderState::Unreadable => self,
            FolderState::Holds(totals) => TransferRecordModel {
                file_count: totals.file_count,
                total_size: totals.total_size,
                status: if totals.file_count > 0 {
                    TransferStatus::Complete
                } else {
                    self.status
                },
                ..self
            },
        }
    }
}

/// The state of the folder of record `i`: nothing is known where `states` is
/// too short.
pub open spec fn state_at(states: Seq<FolderState>, i: int) -> FolderState {
    if 0 <= i < states.len() {
        states[i]
    } else {
        FolderState::Unreadable
    }
}

/// The history brought in line with the disk, record by record, without the
/// records that then hold no file.
pub open spec fn synced(history: Seq<TransferRecordModel>, states: Seq<FolderState>) -> Seq<
    TransferRecordModel,
>
    decreases history.len(),
{
    if history.len() == 0 {
        Seq::empty()
    } else {
        let head = synced(history.drop_last(), states);
        let seen = history.last().seen_as(state_at(states, history.len() - 1));
        if seen.file_count > 0 {
            head.push(seen)
        } else {
            head
        }
    }
}

/// Brings the history in line with the disk: `states[i]` tells of the folder of
/// record `i`. Records whose folder holds no file leave the history.
pub fn sync_history_from_disk(history: &mut Vec<TransferRecord>, states: &Vec<FolderState>)
    ensures
        final(history).deep_view() == synced(old(history).deep_view(), states@),
{
    let ghost before = history.deep_view();
    let mut kept: Vec<TransferRecord> = Vec::new();
    let mut i: usize = 0;
    proof {
        assert(before.take(0) =~= Seq::<TransferRecordModel>::empty());
    }
    while i < history.len()
        invariant
            i <= history.len(),
            history.deep_view() == before,
            kept.deep_view() == synced(before.take(i as int), states@),
        decreases history.len() - i,
    {
        let ghost so_far = kept.deep_view();
        proof {
            assert(before.take(i + 1).drop_last() =~= before.take(i as int));
            assert(before.take(i + 1).last() == history[i as int].deep_view());
        }
        let state = if i < states.len() {
            states[i]
        } else {
            FolderState::Unreadable
        };
        let mut record = history[i].duplicate();
        match state {
            FolderState::Missing => {
                record.file_count = 0;
                record.total_size = 0;
            },
            FolderState::Unreadable => {},
            FolderState::Holds(totals) => {
                record.file_count = totals.file_count;
                record.total_size = totals.total_size;
                if totals.file_count > 0 {
                    record.status = TransferStatus::Complete;
                }
            },
        }
        if record.file_count > 0 {
            proof {
                assert(record.deep_view() == before[i as int].seen_as(state));
            }
            kept.push(record);
            proof {
                assert(kept.deep_view() =~= so_far.push(before[i as int].seen_as(state)));
            }
        }
        i += 1;
    }
    proof {
        assert(before.take(before.len() as int) =~= before);
    }
    *history = kept;
}

/// Saving a record changes how many records a folder has only for the folder
/// of the record, and only from none to one.
pub proof fn lemma_saved_records_for(
    history: Seq<TransferRecordModel>,
    record: TransferRecordModel,
    folder: Seq<char>,
)
    ensures
        records_for(saved(history, record), folder) == (if folder == record.folder && records_for(
            history,
            folder,
        ) == 0 {
            1nat
        } else {
            records_for(history, folder)
        }),
{
    let p = |r: TransferRecordModel| r.folder == record.folder;
    lemma_first_index(history, p);
    let at = index_of_folder(history, record.folder);
    if at < history.len() {
        let changed = history[at].refreshed(record);
        assert(changed.folder == history[at].folder);
        lemma_records_for_update(history, at, changed, folder);
        lemma_records_for_found(history, at, record.folder);
    } else {
        assert(saved(history, record).drop_last() =~= history);
        lemma_records_for_none(history, record.folder);
    }
}

/// A record for a folder that is saved while the folder has at most one record
/// leaves the folder with exactly one record, and that record has the status
/// that was saved.
pub proof fn lemma_saved_is_single(history: Seq<TransferRecordModel>, record: TransferRecordModel)
    requires
        records_for(history, record.folder) <= 1,
    ensures
        records_for(saved(history, record), record.folder) == 1,
        index_of_folder(saved(history, record), record.folder) < saved(history, record).len(),
        saved(history, record)[index_of_folder(
            saved(history, record),
            record.folder,
        )].status == record.status,
{
    lemma_saved_records_for(history, record, record.folder);
    let p = |r: TransferRecordModel| r.folder == record.folder;
    lemma_first_index(history, p);
    let at = index_of_folder(history, record.folder);
    let after = saved(history, record);
    if at < history.len() {
        lemma_records_for_found(history, at, record.folder);
        assert forall|j: int| 0 <= j < at implies !p(#[trigger] after[j]) by {
            assert(after[j] == history[j]);
        }
        assert(p(after[at]));
        lemma_first_index_is(after, p, at);
    } else {
        lemma_records_for_none(history, record.folder);
        assert forall|j: int| 0 <= j < at implies !p(#[trigger] after[j]) by {
            assert(after[j] == history[j]);
        }
        assert(p(after[at]));
        lemma_first_index_is(after, p, at);
    }
}

/// A history none of whose records is for `folder` has no record for it.
pub proof fn lemma_records_for_none(history: Seq<TransferRecordModel>, folder: Seq<char>)
    requires
        forall|j: int| 0 <= j < history.len() ==> (#[trigger] history[j]).folder != folder,
    ensures
        records_for(history, folder) == 0,
    decreases history.len(),
{
    if history.len() > 0 {
        assert(history.last() == history[history.len() - 1]);
        assert forall|j: int| 0 <= j < history.drop_last().len() implies (
        #[trigger] history.drop_last()[j]).folder != folder by {
            assert(history.drop_last()[j] == history[j]);
        }
        lemma_records_for_none(history.drop_last(), folder);
    }
}

/// A history with a record for `folder` at `at` has at least one record for it.
pub proof fn lemma_records_for_found(history: Seq<TransferRecordModel>, at: int, folder: Seq<char>)
    requires
        0 <= at < history.len(),
        history[at].folder == folder,
    ensures
        records_for(history, folder) >= 1,
    decreases history.len(),
{
    if at == history.len() - 1 {
    } else {
        assert(history.drop_last()[at] == history[at]);
        lemma_records_for_found(history.drop_last(), at, folder);
    }
}

/// Exchanging a record for one of the same folder changes no count.
pub proof fn lemma_records_for_update(
    history: Seq<TransferRecordModel>,
    at: int,
    changed: TransferRecordModel,
    folder: Seq<char>,
)
    requires
        0 <= at < history.len(),
        changed.folder == history[at].folder,
    ensures
        records_for(history.update(at, changed), folder) == records_for(history, folder),
    decreases history.len(),
{
    let after = history.update(at, changed);
    if at == history.len() - 1 {
        assert(after.drop_last() =~= history.drop_last());
    } else {
        assert(after.drop_last() =~= history.drop_last().update(at, changed));
        assert(history.drop_last()[at] == history[at]);
        lemma_records_for_update(history.drop_last(), at, changed, folder);
    }
}

/// No two records are for the same folder.
pub open spec fn folders_are_unique(history: Seq<TransferRecordModel>) -> bool {
    forall|i: int, j: int|
        0 <= i < j < history.len() ==> (#[trigger] history[i]).folder != (
        #[trigger] history[j]).folder
}

/// Saving a record keeps the folders of the records unique.
pub proof fn lemma_saved_keeps_unique(history: Seq<TransferRecordModel>, record: TransferRecordModel)
    requires
        folders_are_unique(history),
    ensures
        folders_are_unique(saved(history, record)),
{
    let p = |r: TransferRecordModel| r.folder == record.folder;
    lemma_first_index(history, p);
    let at = index_of_folder(history, record.folder);
    let after = saved(history, record);
    assert forall|i: int, j: int| 0 <= i < j < after.len() implies (#[trigger] after[i]).folder != (
    #[trigger] after[j]).folder by {
        if at < history.len() {
            assert(after[i].folder == history[i].folder);
            assert(after[j].folder == history[j].folder);
        } else {
            if j == history.len() {
                assert(after[i] == history[i]);
                assert(!p(history[i]));
            } else {
                assert(after[i] == history[i] && after[j] == history[j]);
            }
        }
    }
}

/// What stays of a history is part of it, in its order, and holds nothing of
/// what was dropped.
pub proof fn lemma_without(history: Seq<TransferRecordModel>, drop: spec_fn(TransferRecordModel) -> bool)
    ensures
        forall|k: int|
            0 <= k < without(history, drop).len() ==> !drop(#[trigger] without(history, drop)[k])
                && history.contains(without(history, drop)[k]),
        folders_are_unique(history) ==> folders_are_unique(without(history, drop)),
    decreases history.len(),
{
    let rest = without(history, drop);
    if history.len() > 0 {
        let shorter = history.drop_last();
        let head = without(shorter, drop);
        lemma_without(shorter, drop);
        assert forall|k: int| 0 <= k < rest.len() implies !drop(#[trigger] rest[k])
            && history.contains(rest[k]) by {
            if k < head.len() {
                assert(rest[k] == head[k]);
                let j = choose|j: int| 0 <= j < shorter.len() && shorter[j] == head[k];
                assert(history[j] == head[k]);
            } else {
                assert(rest[k] == history[history.len() - 1]);
            }
        }
        if folders_are_unique(history) {
            assert(folders_are_unique(shorter)) by {
                assert forall|i: int, j: int| 0 <= i < j < shorter.len() implies (
                #[trigger] shorter[i]).folder != (#[trigger] shorter[j]).folder by {
                    assert(shorter[i] == history[i] && shorter[j] == history[j]);
                }
            }
            assert forall|i: int, j: int| 0 <= i < j < rest.len() implies (
            #[trigger] rest[i]).folder != (#[trigger] rest[j]).folder by {
                if j < head.len() {
                    assert(rest[i] == head[i] && rest[j] == head[j]);
                } else {
                    assert(rest[i] == head[i]);
                    let a = choose|a: int| 0 <= a < shorter.len() && shorter[a] == head[i];
                    assert(history[a] == head[i]);
                    assert(rest[j] == history[history.len() - 1]);
                }
            }
        }
    }
}

/// Recording a completion keeps the folders of the records unique, where the
/// final folder has no record of its own yet: the record of the temp folder
/// gives way to that of the final folder.
pub proof fn lemma_completion_keeps_unique(
    history: Seq<TransferRecordModel>,
    temp_folder: Seq<char>,
    record: TransferRecordModel,
)
    requires
        folders_are_unique(history),
        forall|i: int|
            0 <= i < history.len() ==> (#[trigger] history[i]).folder != record.folder
                || history[i].folder == temp_folder,
    ensures
        folders_are_unique(
            without(history, |r: TransferRecordModel| r.folder == temp_folder).push(record),
        ),
        records_for(
            without(history, |r: TransferRecordModel| r.folder == temp_folder).push(record),
            record.folder,
        ) == 1,
{
    let drop = |r: TransferRecordModel| r.folder == temp_folder;
    let rest = without(history, drop);
    lemma_without(history, drop);
    let after = rest.push(record);
    assert forall|i: int| 0 <= i < rest.len() implies (#[trigger] rest[i]).folder
        != record.folder by {
        let a = choose|a: int| 0 <= a < history.len() && history[a] == rest[i];
        assert(!drop(rest[i]));
    }
    assert forall|i: int, j: int| 0 <= i < j < after.len() implies (#[trigger] after[i]).folder != (
    #[trigger] after[j]).folder by {
        if j < rest.len() {
            assert(after[i] == rest[i] && after[j] == rest[j]);
        } else {
            assert(after[i] == rest[i]);
        }
    }
    assert(after.drop_last() =~= rest);
    lemma_records_for_none(rest, record.folder);
}

} // verus!
