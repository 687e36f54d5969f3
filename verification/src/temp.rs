//! Temp folders: the working folders of transfers that have not finished. A temp
//! folder is named `.tmp_`, the sanitized name of the sender, `_`, and the time
//! of its creation in milliseconds; it is what makes a transfer resumable.

use crate::platform::{lowercase, to_lowercase, unix_millis_now};
use crate::text::{
    append_chars, chars_of, decimal, decimal_chars, find_last, first_chars, last_index_of,
    matches_at, replace_char, starts_with, swap_char, tail_from, text_of,
};
use vstd::prelude::*;

verus! {

/// A sender's name as it occurs in folder names and transfer ids: in lower
/// case, with `_` for every space.
pub open spec fn sanitized(name: Seq<char>) -> Seq<char> {
    replace_char(lowercase(name), ' ', '_')
}

/// What the names of a sender's temp folders begin with.
pub open spec fn temp_prefix(photographer: Seq<char>) -> Seq<char> {
    ".tmp_"@ + sanitized(photographer) + "_"@
}

/// The name of the temp folder made for a sender at a time.
pub open spec fn temp_folder_name(photographer: Seq<char>, millis: u128) -> Seq<char> {
    temp_prefix(photographer) + decimal(millis as nat)
}

/// The id of the transfer started by a sender at a time.
pub open spec fn transfer_id_of(photographer: Seq<char>, millis: u128) -> Seq<char> {
    sanitized(photographer) + "_"@ + decimal(millis as nat)
}

/// Sanitizes a sender's name; see [`sanitized`].
pub fn sanitize(name: &str) -> (out: Vec<char>)
    ensures
        out@ == sanitized(name@),
{
    let lower = to_lowercase(name);
    swap_char(&chars_of(lower.as_str()), ' ', '_')
}

/// What the names of a sender's temp folders begin with.
pub fn temp_folder_prefix(photographer: &str) -> (prefix: Vec<char>)
    ensures
        prefix@ == temp_prefix(photographer@),
{
    let mut prefix = chars_of(".tmp_");
    append_chars(&mut prefix, &sanitize(photographer));
    append_chars(&mut prefix, &chars_of("_"));
    prefix
}

/// The name of the temp folder made for a sender at `millis`.
pub fn temp_folder_name_at(photographer: &str, millis: u128) -> (name: String)
    ensures
        name@ == temp_folder_name(photographer@, millis),
{
    let mut name = temp_folder_prefix(photographer);
    append_chars(&mut name, &decimal_chars(millis));
    text_of(&name)
}

/// The name of a temp folder made for a sender now. Which time the clock gives
/// is not known beforehand.
pub fn generate_temp_folder_name(photographer: &str) -> (name: String)
    ensures
        exists|millis: u128| name@ == temp_folder_name(photographer@, millis),
{
    let millis = unix_millis_now();
    temp_folder_name_at(photographer, millis)
}

/// The id of the transfer started by a sender at `millis`.
pub fn transfer_id_at(photographer: &str, millis: u128) -> (id: String)
    ensures
        id@ == transfer_id_of(photographer@, millis),
{
    let mut id = sanitize(photographer);
    append_chars(&mut id, &chars_of("_"));
    append_chars(&mut id, &decimal_chars(millis));
    text_of(&id)
}

/// An entry of the directory in which temp folders are looked for. `modified`
/// is the time of its last change, as a number that grows with time, where the
/// file system tells it.
#[derive(Clone, Debug, PartialEq, Eq)]
pub struct FolderEntry {
    pub name: String,
    pub is_dir: bool,
    pub modified: Option<u128>,
}

/// How recent an entry is: one without a time is older than any with one.
pub open spec fn recency(modified: Option<u128>) -> int {
    match modified {
        Some(t) => t as int,
        None => -1,
    }
}

/// Whether an entry is a temp folder of the sender: a directory whose name, in
/// lower case, begins with the sender's prefix.
pub open spec fn is_temp_folder_of(entry: FolderEntry, photographer: Seq<char>) -> bool {
    entry.is_dir && temp_prefix(photographer).is_prefix_of(lowercase(entry.name@))
}

/// Whether `at` is the entry that a transfer of the sender resumes into: the
/// most recently changed of the sender's temp folders, the first listed of them
/// where several are equally recent.
pub open spec fn is_resume_candidate(
    entries: Seq<FolderEntry>,
    photographer: Seq<char>,
    at: int,
) -> bool {
    &&& 0 <= at < entries.len()
    &&& is_temp_folder_of(entries[at], photographer)
    &&& forall|j: int|
        0 <= j < entries.len() && is_temp_folder_of(#[trigger] entries[j], photographer)
            ==> recency(entries[j].modified) <= recency(entries[at].modified)
    &&& forall|j: int|
        0 <= j < at && is_temp_folder_of(#[trigger] entries[j], photographer) ==> recency(
            entries[j].modified,
        ) < recency(entries[at].modified)
}

/// Whether one entry is more recent than another.
fn is_more_recent(a: &Option<u128>, b: &Option<u128>) -> (r: bool)
    ensures
        r == (recency(*a) > recency(*b)),
{
    match a {
        Some(x) => match b {
            Some(y) => *x > *y,
            None => true,
        },
        None => false,
    }
}

/// Looks for a temp folder of the sender to resume into, and gives its index in
/// `entries`; see [`is_resume_candidate`]. There is none exactly when the
/// sender has no temp folder among the entries.
pub fn find_temp_folder(entries: &Vec<FolderEntry>, photographer: &str) -> (found: Option<usize>)
    ensures
        match found {
            Some(at) => is_resume_candidate(entries@, photographer@, at as int),
            None => forall|j: int|
                0 <= j < entries.len() ==> !is_temp_folder_of(#[trigger] entries@[j], photographer@),
        },
{
    let prefix = temp_folder_prefix(photographer);
    let mut best: Option<usize> = None;
    let mut i: usize = 0;
    while i < entries.len()
        invariant
            i <= entries.len(),
            prefix@ == temp_prefix(photographer@),
            match best {
                Some(at) => {
                    &&& at < i
                    &&& is_temp_folder_of(entries@[at as int], photographer@)
                    &&& forall|j: int|
                        0 <= j < i && is_temp_folder_of(#[trigger] entries@[j], photographer@)
                            ==> recency(entries@[j].modified) <= recency(
                            entries@[at as int].modified,
                        )
                    &&& forall|j: int|
                        0 <= j < at && is_temp_folder_of(#[trigger] entries@[j], photographer@)
                            ==> recency(entries@[j].modified) < recency(
                            entries@[at as int].modified,
                        )
                },
                None => forall|j: int|
                    0 <= j < i ==> !is_temp_folder_of(#[trigger] entries@[j], photographer@),
            },
        decreases entries.len() - i,
    {
        let entry = &entries[i];
        if entry.is_dir {
            let lower = to_lowercase(entry.name.as_str());
            if starts_with(&chars_of(lower.as_str()), &prefix) {
                match best {
                    Some(at) => {
                        if is_more_recent(&entry.modified, &entries[at].modified) {
                            best = Some(i);
                        }
                    },
                    None => {
                        best = Some(i);
                    },
                }
            }
        }
        i += 1;
    }
    best
}

/// `s` without every leading repetition of `prefix`.
pub open spec fn without_leading(s: Seq<char>, prefix: Seq<char>) -> Seq<char>
    decreases s.len(),
{
    if prefix.len() > 0 && prefix.is_prefix_of(s) {
        without_leading(s.skip(prefix.len() as int), prefix)
    } else {
        s
    }
}

/// Whether a name is that of a temp folder.
pub open spec fn is_temp_name(name: Seq<char>) -> bool {
    ".tmp_"@.is_prefix_of(name)
}

/// The sender that a temp folder's name tells of: what stands between the
/// leading `.tmp_` and the last `_`, with a space for every `_`; `Unknown`
/// where the name has no `_` behind `.tmp_`.
pub open spec fn sender_of_temp_name(name: Seq<char>) -> Seq<char> {
    let rest = without_leading(name, ".tmp_"@);
    let cut = last_index_of(rest, '_');
    if cut >= 0 {
        replace_char(rest.take(cut), '_', ' ')
    } else {
        "Unknown"@
    }
}

/// Whether a name is that of a temp folder.
pub fn is_temp_folder_name(name: &str) -> (r: bool)
    ensures
        r == is_temp_name(name@),
{
    starts_with(&chars_of(name), &chars_of(".tmp_"))
}

/// Whether an entry may be deleted as a temp folder that was left behind: only
/// a directory with the name of a temp folder may.
pub fn is_deletable_temp_folder(name: &str, is_dir: bool) -> (r: bool)
    ensures
        r == (is_dir && is_temp_name(name@)),
{
    is_dir && is_temp_folder_name(name)
}

/// Whether a name is that of a day folder: whether it begins with `DAY `.
pub fn is_day_folder_name(name: &str) -> (r: bool)
    ensures
        r == "DAY "@.is_prefix_of(name@),
{
    starts_with(&chars_of(name), &chars_of("DAY "))
}

/// `s` without every leading repetition of `prefix`.
fn strip_leading(s: &Vec<char>, prefix: &Vec<char>) -> (rest: Vec<char>)
    ensures
        rest@ == without_leading(s@, prefix@),
{
    let mut start: usize = 0;
    proof {
        assert(s@.skip(0) =~= s@);
    }
    while prefix.len() > 0 && matches_at(s, prefix, start)
        invariant
            start <= s.len(),
            without_leading(s@, prefix@) == without_leading(s@.skip(start as int), prefix@),
        decreases s.len() - start,
    {
        proof {
            let rest = s@.skip(start as int);
            assert(rest.subrange(0, prefix.len() as int) =~= s@.subrange(
                start as int,
                start + prefix.len(),
            ));
            assert(rest.skip(prefix.len() as int) =~= s@.skip(start + prefix.len()));
        }
        start += prefix.len();
    }
    proof {
        let rest = s@.skip(start as int);
        if prefix.len() > 0 && prefix@.is_prefix_of(rest) {
            assert(rest.subrange(0, prefix.len() as int) =~= s@.subrange(
                start as int,
                start + prefix.len(),
            ));
        }
    }
    tail_from(s, start)
}

/// The sender that a temp folder's name tells of; see [`sender_of_temp_name`].
pub fn photographer_of_temp_folder(name: &str) -> (sender: String)
    ensures
        sender@ == sender_of_temp_name(name@),
{
    let rest = strip_leading(&chars_of(name), &chars_of(".tmp_"));
    match find_last(&rest, '_') {
        Some(cut) => text_of(&swap_char(&first_chars(&rest, cut), '_', ' ')),
        None => "Unknown".to_owned(),
    }
}

/// What the library reports of a temp folder left on disk.
#[derive(Clone, Debug, PartialEq, Eq)]
pub struct TempFolderInfo {
    pub path: String,
    pub photographer: String,
    pub file_count: usize,
    pub total_size: u64,
    pub day: Option<String>,
}

/// An entry of a folder, as far as counting needs it.
#[derive(Clone, Debug, PartialEq, Eq)]
pub struct DiskEntry {
    pub is_file: bool,
    pub size: u64,
}

/// The number of files among the entries.
pub open spec fn file_count_of(entries: Seq<DiskEntry>) -> nat
    decreases entries.len(),
{
    if entries.len() == 0 {
        0
    } else {
        file_count_of(entries.drop_last()) + (if entries.last().is_file {
            1nat
        } else {
            0nat
        })
    }
}

/// The bytes of the files among the entries.
pub open spec fn file_bytes_of(entries: Seq<DiskEntry>) -> nat
    decreases entries.len(),
{
    if entries.len() == 0 {
        0
    } else {
        file_bytes_of(entries.drop_last()) + (if entries.last().is_file {
            entries.last().size as nat
        } else {
            0nat
        })
    }
}

/// What a folder holds: how many files, and how many bytes in them.
#[derive(Clone, Copy, Debug, PartialEq, Eq, Structural)]
pub struct FolderTotals {
    pub file_count: usize,
    pub total_size: u64,
}

/// Counts the files among the entries of a folder, and their bytes. The
/// subfolders of the folder are not looked into. There is no result exactly
/// when the bytes add up to more than `u64::MAX`.
pub fn folder_totals(entries: &Vec<DiskEntry>) -> (totals: Option<FolderTotals>)
    ensures
        match totals {
            Some(t) => t.file_count == file_count_of(entries@) && t.total_size == file_bytes_of(
                entries@,
            ),
            None => file_bytes_of(entries@) > u64::MAX,
        },
{
    let mut count: usize = 0;
    let mut bytes: u64 = 0;
    let mut i: usize = 0;
    proof {
        assert(entries@.take(0) =~= Seq::<DiskEntry>::empty());
    }
    while i < entries.len()
        invariant
            i <= entries.len(),
            count == file_count_of(entries@.take(i as int)),
            count <= i,
            bytes == file_bytes_of(entries@.take(i as int)),
        decreases entries.len() - i,
    {
        proof {
            assert(entries@.take(i + 1).drop_last() =~= entries@.take(i as int));
            assert(entries@.take(i + 1).last() == entries@[i as int]);
        }
        if entries[i].is_file {
            count += 1;
            match bytes.checked_add(entries[i].size) {
                Some(sum) => {
                    bytes = sum;
                },
                None => {
                    proof {
                        lemma_file_bytes_grow(entries@, i + 1);
                    }
                    return None;
                },
            }
        }
        i += 1;
    }
    proof {
        assert(entries@.take(entries.len() as int) =~= entries@);
    }
    Some(FolderTotals { file_count: count, total_size: bytes })
}

/// The bytes of a prefix of the entries are no more than the bytes of all.
pub proof fn lemma_file_bytes_grow(entries: Seq<DiskEntry>, n: int)
    requires
        0 <= n <= entries.len(),
    ensures
        file_bytes_of(entries.take(n)) <= file_bytes_of(entries),
    decreases entries.len() - n,
{
    if n == entries.len() {
        assert(entries.take(n) =~= entries);
    } else {
        lemma_file_bytes_grow(entries, n + 1);
        assert(entries.take(n + 1).drop_last() =~= entries.take(n));
    }
}

/// What is reported of the temp folder at `path`, called `name`, that holds
/// `totals`, found under the day folder `day` where it lies in one.
pub fn describe_temp_folder(
    path: &str,
    name: &str,
    totals: FolderTotals,
    day: &Option<String>,
) -> (info: TempFolderInfo)
    ensures
        info.path@ == path@,
        info.photographer@ == sender_of_temp_name(name@),
        info.file_count == totals.file_count,
        info.total_size == totals.total_size,
        info.day.deep_view() == day.deep_view(),
{
    let day = match day {
        Some(d) => Some(d.clone()),
        None => None,
    };
    TempFolderInfo {
        path: path.to_owned(),
        photographer: photographer_of_temp_folder(name),
        file_count: totals.file_count,
        total_size: totals.total_size,
        day,
    }
}

} // verus!
