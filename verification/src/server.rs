//! The receiving side of a connection, up to the first file and from the last:
//! where incoming folders go, whether an interrupted transfer is resumed, what
//! the sender is answered, which of the offered files are received, and what
//! the folder is called in the end.

use crate::config::{first_free_counter, rendered_name, ReceiverConfig};
use crate::duplicates::{
    check_duplicates_in_folder, comes_from, comes_from_scope, duplicate_in, find_duplicates_in_day,
    folder_duplicates, is_searched, lemma_folder_duplicates, lemma_merge_names_once,
    lemma_merged_duplicates, lemma_scope_duplicates, mentions, merge_duplicates,
    merged_duplicates, names_are_distinct, names_files_once, scope_duplicates, FolderModel,
    FolderSnapshot,
};
use crate::history::{copy_of, TransferRecord, TransferStatus};
use crate::platform::{join_path, machine_host_name, path_join};
use crate::reception::{
    keys_are_distinct, lemma_received_into, received_into, started, total_size, FolderContents,
    Reception, Step,
};
use crate::temp::{
    find_temp_folder, is_resume_candidate, is_temp_folder_of, temp_folder_name,
    temp_folder_name_at, transfer_id_at, transfer_id_of, FolderEntry, FolderTotals,
};
use crate::text::{
    append_chars, chars_of, decimal, decimal_chars, equals, is_listed, names_contain, text_of,
};
use crate::wire::{
    AckResponse, DuplicateModel, FileMetadata, FileMetadataModel, ProtocolError, TransferHeader,
};
use vstd::prelude::*;

verus! {

/// The kind of sender that a role stands for: taggers and editors for
/// themselves, everyone else for a photographer.
pub open spec fn category_of(sender_role: Option<Seq<char>>) -> Seq<char> {
    if sender_role == Some("tagger"@) {
        "Tagger"@
    } else if sender_role == Some("editor"@) {
        "Editor"@
    } else {
        "Fotograf"@
    }
}

/// The folder under which the transfers of a kind of sender are looked for and
/// put: an editor keeps one folder per kind of sender, a tagger that files by
/// day the folder of the current day, everyone else the base path.
pub open spec fn search_base_of(config: &ReceiverConfig, category: Seq<char>) -> Seq<char> {
    if config.role@ == "editor"@ {
        path_join(config.base_path@, category)
    } else if config.counts_per_day() {
        path_join(config.base_path@, config.current_day@)
    } else {
        config.base_path@
    }
}

/// Whether a receiver looks for duplicates beyond the folder it resumes into:
/// taggers and editors do.
pub open spec fn scans_scope(config: &ReceiverConfig) -> bool {
    config.role@ == "tagger"@ || config.role@ == "editor"@
}

/// The kind of sender that a role stands for; see [`category_of`].
pub fn source_category(sender_role: &Option<String>) -> (category: String)
    ensures
        category@ == category_of(sender_role.deep_view()),
{
    match sender_role {
        Some(role) => {
            if equals(role.as_str(), "tagger") {
                "Tagger".to_owned()
            } else if equals(role.as_str(), "editor") {
                "Editor".to_owned()
            } else {
                "Fotograf".to_owned()
            }
        },
        None => "Fotograf".to_owned(),
    }
}

/// Where a receiver keeps the transfers of a kind of sender.
#[derive(Clone, Debug, PartialEq, Eq)]
pub struct Negotiation {
    pub source_category: String,
    pub search_base: String,
    pub scans_scope: bool,
}

/// Settles, from the receiver's configuration and the header, where the
/// transfer goes and where duplicates are looked for.
pub fn open_negotiation(config: &ReceiverConfig, header: &TransferHeader) -> (n: Negotiation)
    ensures
        n.source_category@ == category_of(header.sender_role.deep_view()),
        n.search_base@ == search_base_of(config, n.source_category@),
        n.scans_scope == scans_scope(config),
{
    let source_category = source_category(&header.sender_role);
    let is_editor = equals(config.role.as_str(), "editor");
    let is_tagger = equals(config.role.as_str(), "tagger");
    let search_base = if is_editor {
        join_path(config.base_path.as_str(), source_category.as_str())
    } else if config.use_day_folders && is_tagger {
        join_path(config.base_path.as_str(), config.current_day.as_str())
    } else {
        config.base_path.clone()
    };
    Negotiation { source_category, search_base, scans_scope: is_tagger || is_editor }
}

/// The temp folder that a transfer resumes into.
#[derive(Clone, Debug, PartialEq, Eq)]
pub struct ResumeFolder {
    pub name: String,
    pub path: String,
}

/// Looks among the entries of the search base for a temp folder of the sender
/// to resume into; see [`is_resume_candidate`].
pub fn resume_folder(search_base: &str, entries: &Vec<FolderEntry>, photographer: &str) -> (found:
    Option<ResumeFolder>)
    ensures
        match found {
            Some(folder) => exists|at: int|
                {
                    &&& is_resume_candidate(entries@, photographer@, at)
                    &&& folder.name@ == (#[trigger] entries@[at]).name@
                    &&& folder.path@ == path_join(search_base@, folder.name@)
                },
            None => forall|j: int|
                0 <= j < entries.len() ==> !is_temp_folder_of(#[trigger] entries@[j], photographer@),
        },
{
    match find_temp_folder(entries, photographer) {
        Some(at) => {
            let name = entries[at].name.clone();
            let path = join_path(search_base, name.as_str());
            Some(ResumeFolder { name, path })
        },
        None => None,
    }
}

/// The duplicates that the sender is told of: those in the folder that is
/// resumed into, then those found elsewhere in the scope for files that are not
/// named yet.
pub open spec fn reported_duplicates(
    resume_path: Option<Seq<char>>,
    resumed: Option<FolderModel>,
    scope: Seq<FolderModel>,
    scans: bool,
    files: Seq<FileMetadataModel>,
) -> Seq<DuplicateModel> {
    let first = match resumed {
        Some(folder) => folder_duplicates(folder, files),
        None => Seq::empty(),
    };
    let more = if scans {
        scope_duplicates(scope, files, resume_path)
    } else {
        Seq::empty()
    };
    merged_duplicates(first, more)
}

/// Whether a folder is looked into for duplicates: the folder that is resumed
/// into is, and, where the scope is scanned, every folder of the scope that is
/// searched.
pub open spec fn is_consulted(
    resume_path: Option<Seq<char>>,
    resumed: Option<FolderModel>,
    scope: Seq<FolderModel>,
    scans: bool,
    folder: FolderModel,
) -> bool {
    resumed == Some(folder) || (scans && exists|j: int|
        0 <= j < scope.len() && #[trigger] scope[j] == folder && is_searched(folder, resume_path))
}

/// Whether a record is that of one of the `files` being present in a folder
/// that is looked into.
pub open spec fn is_reported_from(
    resume_path: Option<Seq<char>>,
    resumed: Option<FolderModel>,
    scope: Seq<FolderModel>,
    scans: bool,
    files: Seq<FileMetadataModel>,
    record: DuplicateModel,
) -> bool {
    exists|folder: FolderModel| #[trigger]
        is_consulted(resume_path, resumed, scope, scans, folder) && comes_from(
            folder,
            files,
            record,
        )
}

/// What the sender is told of is what the folders that are looked into hold:
/// every record is that of an offered file being present in such a folder, and
/// every offered file that such a folder holds has a record. Where no two
/// offered files have the same name, no file has two records.
pub proof fn lemma_reported_duplicates(
    resume_path: Option<Seq<char>>,
    resumed: Option<FolderModel>,
    scope: Seq<FolderModel>,
    scans: bool,
    files: Seq<FileMetadataModel>,
)
    ensures
        forall|k: int|
            0 <= k < reported_duplicates(resume_path, resumed, scope, scans, files).len()
                ==> is_reported_from(
                resume_path,
                resumed,
                scope,
                scans,
                files,
                #[trigger] reported_duplicates(resume_path, resumed, scope, scans, files)[k],
            ),
        forall|folder: FolderModel, i: int|
            #[trigger] is_consulted(resume_path, resumed, scope, scans, folder) && 0 <= i
                < files.len() && duplicate_in(folder, #[trigger] files[i]) is Some ==> mentions(
                reported_duplicates(resume_path, resumed, scope, scans, files),
                files[i].name,
            ),
        names_are_distinct(files) ==> names_files_once(
            reported_duplicates(resume_path, resumed, scope, scans, files),
        ),
{
    let first = match resumed {
        Some(folder) => folder_duplicates(folder, files),
        None => Seq::empty(),
    };
    let more = if scans {
        scope_duplicates(scope, files, resume_path)
    } else {
        Seq::empty()
    };
    let all = merged_duplicates(first, more);
    assert(all == reported_duplicates(resume_path, resumed, scope, scans, files));
    lemma_merged_duplicates(first, more);
    if resumed is Some {
        lemma_folder_duplicates(resumed->0, files);
    }
    if scans {
        lemma_scope_duplicates(scope, files, resume_path);
    }
    assert forall|k: int| 0 <= k < all.len() implies is_reported_from(
        resume_path,
        resumed,
        scope,
        scans,
        files,
        #[trigger] all[k],
    ) by {
        if first.contains(all[k]) {
            let a = choose|a: int| 0 <= a < first.len() && first[a] == all[k];
            assert(comes_from(resumed->0, files, first[a]));
            assert(is_consulted(resume_path, resumed, scope, scans, resumed->0));
        } else {
            let a = choose|a: int| 0 <= a < more.len() && more[a] == all[k];
            assert(comes_from_scope(scope, files, resume_path, more[a]));
            let j = choose|j: int|
                0 <= j < scope.len() && is_searched(#[trigger] scope[j], resume_path)
                    && comes_from(scope[j], files, more[a]);
            assert(is_consulted(resume_path, resumed, scope, scans, scope[j]));
        }
    }
    assert forall|folder: FolderModel, i: int|
        #[trigger] is_consulted(resume_path, resumed, scope, scans, folder) && 0 <= i
            < files.len() && duplicate_in(folder, #[trigger] files[i]) is Some implies mentions(
        all,
        files[i].name,
    ) by {
        let wanted = duplicate_in(folder, files[i])->0;
        assert(wanted.file_name == files[i].name);
        if resumed == Some(folder) {
            assert(first.contains(wanted));
            let a = choose|a: int| 0 <= a < first.len() && first[a] == wanted;
            assert(first[a].file_name == files[i].name);
            assert(mentions(first, files[i].name));
        } else {
            let j = choose|j: int|
                0 <= j < scope.len() && #[trigger] scope[j] == folder && is_searched(
                    folder,
                    resume_path,
                );
            assert(duplicate_in(scope[j], files[i]) is Some);
            assert(more.contains(wanted));
            let a = choose|a: int| 0 <= a < more.len() && more[a] == wanted;
            assert(more[a].file_name == files[i].name);
            assert(mentions(more, files[i].name));
        }
    }
    if names_are_distinct(files) {
        assert(names_files_once(first));
        lemma_merge_names_once(first, more);
    }
}

/// A match is reported: where a folder that is looked into holds an offered
/// file, and every such folder holds it with the offered size, the sender is
/// told of the file with a record that says the sizes are equal. It is told
/// once, where no two offered files have the same name.
pub proof fn lemma_match_is_reported(
    resume_path: Option<Seq<char>>,
    resumed: Option<FolderModel>,
    scope: Seq<FolderModel>,
    scans: bool,
    files: Seq<FileMetadataModel>,
    i: int,
)
    requires
        0 <= i < files.len(),
        names_are_distinct(files),
        exists|folder: FolderModel| #[trigger]
            is_consulted(resume_path, resumed, scope, scans, folder) && duplicate_in(
                folder,
                files[i],
            ) is Some,
        forall|folder: FolderModel| #[trigger]
            is_consulted(resume_path, resumed, scope, scans, folder) && duplicate_in(
                folder,
                files[i],
            ) is Some ==> duplicate_in(folder, files[i])->0.sizes_equal,
    ensures
        exists|k: int|
            {
                &&& 0 <= k < reported_duplicates(resume_path, resumed, scope, scans, files).len()
                &&& (#[trigger] reported_duplicates(
                    resume_path,
                    resumed,
                    scope,
                    scans,
                    files,
                )[k]).file_name == files[i].name
                &&& reported_duplicates(resume_path, resumed, scope, scans, files)[k].sizes_equal
                &&& reported_duplicates(resume_path, resumed, scope, scans, files)[k].new_size
                    == files[i].size
                &&& reported_duplicates(resume_path, resumed, scope, scans, files)[k].existing_size
                    == files[i].size
            },
        names_files_once(reported_duplicates(resume_path, resumed, scope, scans, files)),
{
    let all = reported_duplicates(resume_path, resumed, scope, scans, files);
    lemma_reported_duplicates(resume_path, resumed, scope, scans, files);
    let holder = choose|folder: FolderModel| #[trigger]
        is_consulted(resume_path, resumed, scope, scans, folder) && duplicate_in(
            folder,
            files[i],
        ) is Some;
    assert(mentions(all, files[i].name));
    let k = choose|k: int| 0 <= k < all.len() && (#[trigger] all[k]).file_name == files[i].name;
    assert(is_reported_from(resume_path, resumed, scope, scans, files, all[k]));
    let folder = choose|folder: FolderModel| #[trigger]
        is_consulted(resume_path, resumed, scope, scans, folder) && comes_from(
            folder,
            files,
            all[k],
        );
    let at = choose|at: int|
        0 <= at < files.len() && duplicate_in(folder, #[trigger] files[at]) == Some(all[k]);
    assert(files[at].name == files[i].name);
    if at < i {
        assert(files[at].name != files[i].name);
    } else if i < at {
        assert(files[i].name != files[at].name);
    }
    assert(at == i);
    assert(duplicate_in(folder, files[i])->0.sizes_equal);
}

/// The answer to a header: the receiver is ready, resumes into `resume` where
/// there is one, and holds these duplicates. `resumed` is what the folder that
/// is resumed into holds, `scope` what the entries of the search base hold.
/// Finding duplicates changes nothing and holds nothing up: the sender decides
/// what to do about them.
pub fn answer_header(
    resume: &Option<ResumeFolder>,
    resumed: &Option<FolderSnapshot>,
    scope: &Vec<FolderSnapshot>,
    scans: bool,
    files: &Vec<FileMetadata>,
) -> (ack: AckResponse)
    ensures
        ack.is_ready(),
        ack.folder.deep_view() == (match resume {
            Some(folder) => Some(folder.path@),
            None => None,
        }),
        ack.resume_folder.deep_view() == ack.folder.deep_view(),
        ack.duplicates.deep_view() == reported_duplicates(
            ack.folder.deep_view(),
            resumed.deep_view(),
            scope.deep_view(),
            scans,
            files.deep_view(),
        ),
{
    let resume_path = match resume {
        Some(folder) => Some(folder.path.clone()),
        None => None,
    };
    let first = match resumed {
        Some(folder) => check_duplicates_in_folder(folder, files),
        None => Vec::new(),
    };
    let more = if scans {
        find_duplicates_in_day(scope, files, &resume_path)
    } else {
        Vec::new()
    };
    proof {
        assert(resumed is None ==> first.deep_view() =~= Seq::<DuplicateModel>::empty());
        assert(!scans ==> more.deep_view() =~= Seq::<DuplicateModel>::empty());
    }
    let all = merge_duplicates(first, &more);
    AckResponse::ready(resume_path, all)
}

/// The files of an offer that a decision list names, in the order of the offer.
/// A file is named by its key: its relative path, or its name where it has no
/// relative path.
pub open spec fn chosen_files(files: Seq<FileMetadataModel>, decision: Seq<Seq<char>>) -> Seq<
    FileMetadataModel,
>
    decreases files.len(),
{
    if files.len() == 0 {
        Seq::empty()
    } else {
        let head = chosen_files(files.drop_last(), decision);
        if names_contain(decision, files.last().key()) {
            head.push(files.last())
        } else {
            head
        }
    }
}

/// Picks from an offer the files that a decision list names.
pub fn choose_files(files: &Vec<FileMetadata>, decision: &Vec<String>) -> (chosen: Vec<
    FileMetadata,
>)
    ensures
        chosen.deep_view() == chosen_files(files.deep_view(), decision.deep_view()),
{
    let mut chosen: Vec<FileMetadata> = Vec::new();
    let mut i: usize = 0;
    proof {
        assert(files.deep_view().take(0) =~= Seq::<FileMetadataModel>::empty());
    }
    while i < files.len()
        invariant
            i <= files.len(),
            chosen.deep_view() == chosen_files(
                files.deep_view().take(i as int),
                decision.deep_view(),
            ),
        decreases files.len() - i,
    {
        let ghost so_far = chosen.deep_view();
        proof {
            assert(files.deep_view().take(i + 1).drop_last() =~= files.deep_view().take(i as int));
            assert(files.deep_view().take(i + 1).last() == files[i as int].deep_view());
        }
        if is_listed(decision, files[i].key()) {
            let copy = files[i].duplicate();
            chosen.push(copy);
            proof {
                assert(chosen.deep_view() =~= so_far.push(copy.deep_view()));
            }
        }
        i += 1;
    }
    proof {
        assert(files.deep_view().take(files.len() as int) =~= files.deep_view());
    }
    chosen
}

/// What is chosen is part of the offer and named by the decision list, and
/// every file of the offer that the list names is chosen.
pub proof fn lemma_chosen_files(files: Seq<FileMetadataModel>, decision: Seq<Seq<char>>)
    ensures
        forall|k: int|
            0 <= k < chosen_files(files, decision).len() ==> files.contains(
                #[trigger] chosen_files(files, decision)[k],
            ) && names_contain(decision, chosen_files(files, decision)[k].key()),
        forall|i: int|
            0 <= i < files.len() && names_contain(decision, (#[trigger] files[i]).key())
                ==> chosen_files(files, decision).contains(files[i]),
        chosen_files(files, decision).len() <= files.len(),
        total_size(chosen_files(files, decision)) <= total_size(files),
    decreases files.len(),
{
    if files.len() > 0 {
        let head = chosen_files(files.drop_last(), decision);
        let all = chosen_files(files, decision);
        lemma_chosen_files(files.drop_last(), decision);
        assert forall|k: int| 0 <= k < all.len() implies files.contains(#[trigger] all[k])
            && names_contain(decision, all[k].key()) by {
            if k < head.len() {
                assert(all[k] == head[k]);
                let j = choose|j: int| 0 <= j < files.drop_last().len() && files.drop_last()[j]
                    == head[k];
                assert(files[j] == head[k]);
            } else {
                assert(all[k] == files[files.len() - 1]);
            }
        }
        assert forall|i: int|
            0 <= i < files.len() && names_contain(decision, (#[trigger] files[i]).key()) implies all.contains(
            files[i],
        ) by {
            if i < files.len() - 1 {
                assert(files.drop_last()[i] == files[i]);
                let k = choose|k: int| 0 <= k < head.len() && head[k] == files[i];
                assert(all[k] == files[i]);
            } else {
                assert(all[all.len() - 1] == files[i]);
            }
        }
        if names_contain(decision, files.last().key()) {
            assert(all.drop_last() =~= head);
        }
    }
}

/// A decision list that names every file of the offer chooses the whole offer,
/// whatever the receiver already holds of it.
pub proof fn lemma_full_decision_chooses_all(
    files: Seq<FileMetadataModel>,
    decision: Seq<Seq<char>>,
)
    requires
        forall|i: int| 0 <= i < files.len() ==> names_contain(decision, (#[trigger] files[i]).key()),
    ensures
        chosen_files(files, decision) == files,
    decreases files.len(),
{
    if files.len() > 0 {
        assert forall|i: int| 0 <= i < files.drop_last().len() implies names_contain(
            decision,
            (#[trigger] files.drop_last()[i]).key(),
        ) by {
            assert(files.drop_last()[i] == files[i]);
        }
        lemma_full_decision_chooses_all(files.drop_last(), decision);
        assert(files.last() == files[files.len() - 1]);
        assert(files.drop_last().push(files.last()) =~= files);
    } else {
        assert(chosen_files(files, decision) =~= files);
    }
}

/// A transfer that resumes into a folder which holds some of its files, and
/// whose decision list names all of them, leaves the folder with exactly the
/// files of the offer, each with the bytes announced for it: every file is
/// received again, also those that were there.
pub proof fn lemma_resumed_transfer_is_complete(
    folder: FolderContents,
    files: Seq<FileMetadataModel>,
    decision: Seq<Seq<char>>,
)
    requires
        keys_are_distinct(files),
        forall|i: int| 0 <= i < files.len() ==> names_contain(decision, (#[trigger] files[i]).key()),
        forall|key: Seq<char>|
            folder.dom().contains(key) ==> exists|i: int|
                0 <= i < files.len() && (#[trigger] files[i]).key() == key,
    ensures
        chosen_files(files, decision) == files,
        forall|i: int|
            0 <= i < files.len() ==> received_into(
                folder,
                chosen_files(files, decision),
            ).dom().contains((#[trigger] files[i]).key()) && received_into(
                folder,
                chosen_files(files, decision),
            )[files[i].key()] == files[i].size,
        forall|key: Seq<char>|
            received_into(folder, chosen_files(files, decision)).dom().contains(key) ==> exists|
                i: int,
            | 0 <= i < files.len() && (#[trigger] files[i]).key() == key,
{
    lemma_full_decision_chooses_all(files, decision);
    lemma_received_into(folder, files);
}

/// What was settled for receiving a transfer.
pub struct ReceivePlan {
    /// The name of the working folder of the transfer.
    pub temp_name: String,
    /// The path of the working folder: created if it is new, used as it is if
    /// the transfer resumes into it.
    pub temp_path: String,
    /// Whether the transfer resumes into a folder that exists.
    pub resumed: bool,
    pub transfer_id: String,
    /// The reception of the chosen files.
    pub reception: Reception,
    /// What to do first.
    pub first_step: Step,
}

/// Settles how a transfer is received, once the sender has said which files it
/// sends. An empty decision list settles nothing: the sender only asked for
/// duplicates, no folder is made and no record kept. Otherwise the working
/// folder is the one to resume into, or a new temp folder named after the
/// sender and the time, and the files to receive are those of the offer that
/// the list names. Sizes that add up to more than `u64::MAX` are refused.
pub fn plan_reception(
    header: &TransferHeader,
    decision: &Vec<String>,
    search_base: &str,
    resume: &Option<ResumeFolder>,
    now_millis: u128,
    cancelled: bool,
) -> (r: Result<Option<ReceivePlan>, ProtocolError>)
    ensures
        ({
            let chosen = chosen_files(header.files.deep_view(), decision.deep_view());
            if decision.len() == 0 {
                r matches Ok(None)
            } else if total_size(chosen) > u64::MAX {
                r matches Err(e) && e is SizeOverflow
            } else {
                r matches Ok(Some(plan)) && {
                    &&& plan.reception.wf()
                    &&& (plan.reception@, plan.first_step) == started(chosen, cancelled)
                    &&& plan.resumed == resume is Some
                    &&& plan.temp_name@ == (match resume {
                        Some(folder) => folder.name@,
                        None => temp_folder_name(header.photographer@, now_millis),
                    })
                    &&& plan.temp_path@ == (match resume {
                        Some(folder) => folder.path@,
                        None => path_join(search_base@, plan.temp_name@),
                    })
                    &&& plan.transfer_id@ == transfer_id_of(header.photographer@, now_millis)
                }
            }
        }),
{
    if decision.len() == 0 {
        return Ok(None);
    }
    let chosen = choose_files(&header.files, decision);
    match Reception::begin(chosen, cancelled) {
        Err(e) => Err(e),
        Ok((reception, first_step)) => {
            let (temp_name, temp_path, resumed) = match resume {
                Some(folder) => (folder.name.clone(), folder.path.clone(), true),
                None => {
                    let name = temp_folder_name_at(header.photographer.as_str(), now_millis);
                    let path = join_path(search_base, name.as_str());
                    (name, path, false)
                },
            };
            let transfer_id = transfer_id_at(header.photographer.as_str(), now_millis);
            Ok(Some(ReceivePlan { temp_name, temp_path, resumed, transfer_id, reception, first_step }))
        },
    }
}

/// Where a file of a transfer is written: under its key in the working folder.
pub fn target_path(temp_path: &str, file: &FileMetadata) -> (path: String)
    ensures
        path@ == path_join(temp_path@, file.deep_view().key()),
{
    join_path(temp_path, file.key())
}

/// What the user interface is told of a transfer in progress.
#[derive(Clone, Debug, PartialEq, Eq)]
pub struct TransferProgress {
    pub transfer_id: String,
    pub photographer: String,
    pub file_name: String,
    pub file_index: usize,
    pub total_files: usize,
    pub bytes_received: u64,
    pub total_bytes: u64,
}

/// What the user interface is told after bytes were stored: the current file,
/// the bytes that have arrived of all files, and the bytes of all files of the
/// transfer. There is nothing to tell once all files are behind.
pub fn progress_of(reception: &Reception, transfer_id: &str, photographer: &str) -> (progress:
    Option<TransferProgress>)
    requires
        reception.wf(),
    ensures
        progress is Some <==> reception@.index < reception@.files.len(),
        progress matches Some(p) ==> {
            &&& p.transfer_id@ == transfer_id@
            &&& p.photographer@ == photographer@
            &&& p.file_name@ == reception@.files[reception@.index as int].name
            &&& p.file_index == reception@.index
            &&& p.total_files == reception@.files.len()
            &&& p.bytes_received == reception@.total_received
            &&& p.total_bytes == total_size(reception@.files)
        },
{
    match reception.current_file() {
        Some(file) => Some(
            TransferProgress {
                transfer_id: transfer_id.to_owned(),
                photographer: photographer.to_owned(),
                file_name: file.name.clone(),
                file_index: reception.file_index(),
                total_files: reception.files().len(),
                bytes_received: reception.total_received(),
                total_bytes: reception.total_bytes(),
            },
        ),
        None => None,
    }
}

/// The name tried for a relayed folder at an attempt: the given name first,
/// then the name with `_2`, `_3` and so on behind it.
pub open spec fn relay_candidate(given: Seq<char>, attempt: u32) -> Seq<char> {
    if attempt <= 1 {
        given
    } else {
        given + "_"@ + decimal(attempt as nat)
    }
}

/// Whether a name can be given to the folder of a transfer: no entry of the
/// destination has it, or the entry that has it is the working folder itself.
pub open spec fn is_free_name(existing: Seq<Seq<char>>, temp_name: Seq<char>, name: Seq<char>) -> bool {
    !names_contain(existing, name) || name == temp_name
}

/// The first attempt from `from` on whose name is free.
pub open spec fn first_free_attempt(
    given: Seq<char>,
    existing: Seq<Seq<char>>,
    temp_name: Seq<char>,
    from: u32,
) -> Option<u32>
    decreases u32::MAX - from,
{
    if is_free_name(existing, temp_name, relay_candidate(given, from)) {
        Some(from)
    } else if from >= u32::MAX {
        None
    } else {
        first_free_attempt(given, existing, temp_name, (from + 1) as u32)
    }
}

/// The name tried for a relayed folder at an attempt.
fn relay_candidate_at(given: &str, attempt: u32) -> (name: String)
    ensures
        name@ == relay_candidate(given@, attempt),
{
    if attempt <= 1 {
        given.to_owned()
    } else {
        let mut name = chars_of(given);
        append_chars(&mut name, &chars_of("_"));
        append_chars(&mut name, &decimal_chars(attempt as u128));
        text_of(&name)
    }
}

/// The name under which a folder that is passed on keeps the name it was sent under:
/// the name itself, or the first of the name with `_2`, `_3`, ... that is free
/// among `existing`, the entries of the destination. There is none only when
/// every attempt up to the largest number is taken.
pub fn relay_folder_name(given: &str, existing: &Vec<String>, temp_name: &str) -> (name:
    Option<String>)
    ensures
        match first_free_attempt(given@, existing.deep_view(), temp_name@, 1) {
            Some(attempt) => name matches Some(n) && n@ == relay_candidate(given@, attempt),
            None => name is None,
        },
        name matches Some(n) ==> is_free_name(existing.deep_view(), temp_name@, n@),
{
    let mut attempt: u32 = 1;
    loop
        invariant
            attempt >= 1,
            first_free_attempt(given@, existing.deep_view(), temp_name@, 1)
                == first_free_attempt(given@, existing.deep_view(), temp_name@, attempt),
        decreases u32::MAX - attempt,
    {
        let candidate = relay_candidate_at(given, attempt);
        if !is_listed(existing, candidate.as_str()) || equals(candidate.as_str(), temp_name) {
            return Some(candidate);
        }
        if attempt == u32::MAX {
            return None;
        }
        attempt += 1;
    }
}

/// Whether a transfer passes a folder on under the name it was sent with: its header
/// says that a folder is sent and gives the name.
pub open spec fn keeps_folder_name(header: &TransferHeader) -> bool {
    header.is_folder_transfer && header.folder_name is Some
}

/// The final name of the folder of a finished transfer. A folder that is passed
/// on keeps its name, with a number behind it where the name is taken; the
/// numbering of the receiver is then left alone. Every other transfer gets the
/// next free name of the receiver's numbering.
pub fn final_folder_name(
    config: &mut ReceiverConfig,
    header: &TransferHeader,
    date: &str,
    time: &str,
    existing: &Vec<String>,
    temp_name: &str,
) -> (name: Option<String>)
    ensures
        final(config).same_settings(old(config)),
        old(config).same_other_counters(final(config)),
        keeps_folder_name(header) ==> {
            &&& final(config).current_counter() == old(config).current_counter()
            &&& match first_free_attempt(
                header.folder_name->0@,
                existing.deep_view(),
                temp_name@,
                1,
            ) {
                Some(attempt) => name matches Some(n) && n@ == relay_candidate(
                    header.folder_name->0@,
                    attempt,
                ),
                None => name is None,
            }
        },
        !keeps_folder_name(header) ==> match first_free_counter(
            old(config).folder_template@,
            header.photographer@,
            date@,
            time@,
            existing.deep_view(),
            old(config).current_counter(),
        ) {
            Some(won) => {
                &&& name matches Some(n) && n@ == rendered_name(
                    old(config).folder_template@,
                    header.photographer@,
                    won,
                    date@,
                    time@,
                )
                &&& final(config).current_counter() == won + 1
            },
            None => name is None && final(config).current_counter() == u32::MAX,
        },
        name matches Some(n) ==> is_free_name(existing.deep_view(), temp_name@, n@),
{
    if header.is_folder_transfer {
        match &header.folder_name {
            Some(given) => {
                return relay_folder_name(given.as_str(), existing, temp_name);
            },
            None => {},
        }
    }
    config.generate_unique_folder_name(header.photographer.as_str(), date, time, existing)
}

/// The path of the final folder of a transfer: under the folder of the kind of
/// sender for an editor, where the configuration puts it for everyone else.
pub fn final_folder_path(config: &ReceiverConfig, category: &str, name: &str) -> (path: String)
    ensures
        path@ == path_join(search_base_of(config, category@), name@),
{
    if equals(config.role.as_str(), "editor") {
        let folder = join_path(config.base_path.as_str(), category);
        join_path(folder.as_str(), name)
    } else {
        config.get_full_path(name)
    }
}

/// What a folder holds when a transfer into it has finished: what was counted
/// on disk, or, where the folder cannot be listed, what was received.
pub fn counted_or_received(counted: Option<FolderTotals>, reception: &Reception) -> (totals:
    FolderTotals)
    requires
        reception.wf(),
    ensures
        totals == (match counted {
            Some(t) => t,
            None => FolderTotals {
                file_count: reception@.index as usize,
                total_size: total_size(reception@.files) as u64,
            },
        }),
{
    match counted {
        Some(t) => t,
        None => FolderTotals {
            file_count: reception.files_completed(),
            total_size: reception.total_bytes(),
        },
    }
}

/// The record of a transfer: what `folder` holds, when, from whom, and with
/// which status. The day is that of the configuration where the receiver files
/// by day.
pub fn transfer_record(
    transfer_id: &str,
    timestamp: i64,
    header: &TransferHeader,
    totals: FolderTotals,
    folder: &str,
    config: &ReceiverConfig,
    status: TransferStatus,
) -> (record: TransferRecord)
    ensures
        record.transfer_id@ == transfer_id@,
        record.timestamp == timestamp,
        record.photographer@ == header.photographer@,
        record.file_count == totals.file_count,
        record.total_size == totals.total_size,
        record.folder@ == folder@,
        record.day.deep_view() == (if config.use_day_folders {
            Some(config.current_day@)
        } else {
            None
        }),
        record.status == status,
        record.source_role.deep_view() == header.sender_role.deep_view(),
{
    TransferRecord {
        transfer_id: transfer_id.to_owned(),
        timestamp,
        photographer: header.photographer.clone(),
        file_count: totals.file_count,
        total_size: totals.total_size,
        folder: folder.to_owned(),
        day: if config.use_day_folders {
            Some(config.current_day.clone())
        } else {
            None
        },
        status,
        source_role: copy_of(&header.sender_role),
    }
}

/// What a receiver advertises on the network.
#[derive(Clone, Debug, PartialEq, Eq)]
pub struct ServiceRegistration {
    pub service_type: String,
    pub instance_name: String,
    pub host_name: String,
    pub ip: String,
    pub port: u16,
    pub role: String,
    pub name: String,
}

/// The service type under which all peers advertise themselves.
pub open spec fn service_type() -> Seq<char> {
    "_phototransfer._tcp.local."@
}

/// The name under which a host is known on the local network.
pub fn local_host_name(host: &str) -> (name: String)
    ensures
        name@ == host@ + ".local."@,
{
    let mut name = chars_of(host);
    append_chars(&mut name, &chars_of(".local."));
    text_of(&name)
}

/// What a receiver advertises: the one service type, an instance name unique by
/// its tag, the host under `.local.`, its address and port, and its role and
/// name as properties.
pub fn registration_for(
    config: &ReceiverConfig,
    port: u16,
    instance_tag: &str,
    host: &str,
    ip: &str,
) -> (registration: ServiceRegistration)
    ensures
        registration.service_type@ == service_type(),
        registration.instance_name@ == "porn-receiver-"@ + instance_tag@,
        registration.host_name@ == host@ + ".local."@,
        registration.ip@ == ip@,
        registration.port == port,
        registration.role@ == config.role@,
        registration.name@ == config.name@,
{
    let mut instance = chars_of("porn-receiver-");
    append_chars(&mut instance, &chars_of(instance_tag));
    ServiceRegistration {
        service_type: "_phototransfer._tcp.local.".to_owned(),
        instance_name: text_of(&instance),
        host_name: local_host_name(host),
        ip: ip.to_owned(),
        port,
        role: config.role.clone(),
        name: config.name.clone(),
    }
}

/// What a receiver advertises from this machine. Which host name the machine
/// gives is not known beforehand.
pub fn service_registration(
    config: &ReceiverConfig,
    port: u16,
    instance_tag: &str,
    ip: &str,
) -> (registration: ServiceRegistration)
    ensures
        registration.service_type@ == service_type(),
        registration.instance_name@ == "porn-receiver-"@ + instance_tag@,
        exists|host: Seq<char>| registration.host_name@ == host + ".local."@,
        registration.ip@ == ip@,
        registration.port == port,
        registration.role@ == config.role@,
        registration.name@ == config.name@,
{
    let host = machine_host_name();
    registration_for(config, port, instance_tag, host.as_str(), ip)
}

/// The seconds after which a receiver gives up on a connection that neither
/// sends nor takes a byte.
pub const IDLE_TIMEOUT_SECS: u64 = 30;

/// The milliseconds a receiver waits before it looks for a connection again
/// when none was waiting.
pub const ACCEPT_PAUSE_MILLIS: u64 = 100;

/// What came of looking for a connection.
#[derive(Clone, Copy, Debug, PartialEq, Eq, Structural)]
pub enum AcceptOutcome {
    /// A sender has connected.
    Connected,
    /// No sender was waiting.
    NoneWaiting,
    /// Looking failed.
    Failed,
}

/// What a receiver does next while it listens.
#[derive(Clone, Copy, Debug, PartialEq, Eq, Structural)]
pub enum ListenStep {
    /// Hand the connection to a transfer of its own, then look again.
    Serve,
    /// Wait this long, then look again.
    Pause { millis: u64 },
    /// Look again.
    Retry,
    /// Stop listening.
    Stop,
}

/// What a receiver does next while it listens: it stops once it is told to,
/// whatever came of the last look; else it serves a sender that has connected,
/// pauses when none was waiting, and looks again after a failure.
pub fn listen_step(running: bool, outcome: AcceptOutcome) -> (step: ListenStep)
    ensures
        step == (if !running {
            ListenStep::Stop
        } else {
            match outcome {
                AcceptOutcome::Connected => ListenStep::Serve,
                AcceptOutcome::NoneWaiting => ListenStep::Pause { millis: ACCEPT_PAUSE_MILLIS },
                AcceptOutcome::Failed => ListenStep::Retry,
            }
        }),
{
    if !running {
        ListenStep::Stop
    } else {
        match outcome {
            AcceptOutcome::Connected => ListenStep::Serve,
            AcceptOutcome::NoneWaiting => ListenStep::Pause { millis: ACCEPT_PAUSE_MILLIS },
            AcceptOutcome::Failed => ListenStep::Retry,
        }
    }
}

} // verus!
