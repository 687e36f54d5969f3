//! Detection of files that the receiver already holds. A file counts as present
//! by its name alone; sizes are compared, contents never.

use crate::seqs::{first_index, lemma_first_index, lemma_first_index_is};
use crate::text::equals;
use crate::wire::{DuplicateInfo, DuplicateModel, FileMetadata, FileMetadataModel};
use vstd::prelude::*;

verus! {

/// A file found on disk.
#[derive(Clone, Debug, PartialEq, Eq)]
pub struct ExistingFile {
    pub name: String,
    pub size: u64,
}

/// [`ExistingFile`] as a value of specifications.
pub struct ExistingFileModel {
    pub name: Seq<char>,
    pub size: u64,
}

impl DeepView for ExistingFile {
    type V = ExistingFileModel;

    open spec fn deep_view(&self) -> ExistingFileModel {
        ExistingFileModel { name: self.name@, size: self.size }
    }
}

/// One entry of the scope that is searched, with what it holds where it is a
/// folder.
#[derive(Clone, Debug, PartialEq, Eq)]
pub struct FolderSnapshot {
    pub path: String,
    pub is_dir: bool,
    pub files: Vec<ExistingFile>,
}

/// [`FolderSnapshot`] as a value of specifications.
pub struct FolderModel {
    pub path: Seq<char>,
    pub is_dir: bool,
    pub files: Seq<ExistingFileModel>,
}

impl DeepView for FolderSnapshot {
    type V = FolderModel;

    open spec fn deep_view(&self) -> FolderModel {
        FolderModel { path: self.path@, is_dir: self.is_dir, files: self.files.deep_view() }
    }
}

/// The record of `file` being present in `folder`, if it is: the first listed
/// file of that name counts.
pub open spec fn duplicate_in(folder: FolderModel, file: FileMetadataModel) -> Option<
    DuplicateModel,
> {
    let at = first_index(folder.files, |f: ExistingFileModel| f.name == file.name);
    if at < folder.files.len() {
        Some(
            DuplicateModel {
                file_name: file.name,
                existing_path: folder.path,
                existing_size: folder.files[at].size,
                new_size: file.size,
                sizes_equal: folder.files[at].size == file.size,
            },
        )
    } else {
        None
    }
}

/// The records of the `files` present in `folder`, in the order of `files`.
pub open spec fn folder_duplicates(folder: FolderModel, files: Seq<FileMetadataModel>) -> Seq<
    DuplicateModel,
>
    decreases files.len(),
{
    if files.len() == 0 {
        Seq::empty()
    } else {
        let head = folder_duplicates(folder, files.drop_last());
        match duplicate_in(folder, files.last()) {
            Some(found) => head.push(found),
            None => head,
        }
    }
}

/// Whether the scan of a scope looks into `folder`: into every directory but
/// the excluded one.
pub open spec fn is_searched(folder: FolderModel, exclude: Option<Seq<char>>) -> bool {
    folder.is_dir && exclude != Some(folder.path)
}

/// The records of the `files` present in the folders of a scope, folder by
/// folder.
pub open spec fn scope_duplicates(
    folders: Seq<FolderModel>,
    files: Seq<FileMetadataModel>,
    exclude: Option<Seq<char>>,
) -> Seq<DuplicateModel>
    decreases folders.len(),
{
    if folders.len() == 0 {
        Seq::empty()
    } else {
        let head = scope_duplicates(folders.drop_last(), files, exclude);
        if is_searched(folders.last(), exclude) {
            head + folder_duplicates(folders.last(), files)
        } else {
            head
        }
    }
}

/// Whether `found` holds a record for the file called `name`.
pub open spec fn names_file(found: Seq<DuplicateModel>, name: Seq<char>) -> bool {
    first_index(found, |d: DuplicateModel| d.file_name == name) < found.len()
}

/// `found` followed by those records of `more` whose file is not named yet,
/// each file at most once.
pub open spec fn merged_duplicates(found: Seq<DuplicateModel>, more: Seq<DuplicateModel>) -> Seq<
    DuplicateModel,
>
    decreases more.len(),
{
    if more.len() == 0 {
        found
    } else {
        let head = merged_duplicates(found, more.drop_last());
        if names_file(head, more.last().file_name) {
            head
        } else {
            head.push(more.last())
        }
    }
}

/// The size of the first file called `name`, if there is one.
fn size_of(files: &Vec<ExistingFile>, name: &str) -> (size: Option<u64>)
    ensures
        ({
            let at = first_index(
                files.deep_view(),
                |f: ExistingFileModel| f.name == name@,
            );
            size == (if at < files.len() {
                Some(files.deep_view()[at].size)
            } else {
                None
            })
        }),
{
    let ghost p = |f: ExistingFileModel| f.name == name@;
    let mut i: usize = 0;
    while i < files.len()
        invariant
            i <= files.len(),
            p == (|f: ExistingFileModel| f.name == name@),
            forall|j: int| 0 <= j < i ==> !p(#[trigger] files.deep_view()[j]),
        decreases files.len() - i,
    {
        if equals(files[i].name.as_str(), name) {
            proof {
                assert(p(files.deep_view()[i as int]));
                lemma_first_index_is(files.deep_view(), p, i as int);
            }
            return Some(files[i].size);
        }
        i += 1;
    }
    proof {
        lemma_first_index_is(files.deep_view(), p, i as int);
    }
    None
}

/// The record of `file` being present in `folder`, if it is.
pub fn check_duplicate(folder: &FolderSnapshot, file: &FileMetadata) -> (found: Option<
    DuplicateInfo,
>)
    ensures
        found.deep_view() == duplicate_in(folder.deep_view(), file.deep_view()),
{
    match size_of(&folder.files, file.name.as_str()) {
        Some(size) => Some(
            DuplicateInfo {
                file_name: file.name.clone(),
                existing_path: folder.path.clone(),
                existing_size: size,
                new_size: file.size,
                sizes_equal: size == file.size,
            },
        ),
        None => None,
    }
}

/// The files of an offer that are present in `folder`, in the order of the
/// offer.
pub fn check_duplicates_in_folder(folder: &FolderSnapshot, files: &Vec<FileMetadata>) -> (found:
    Vec<DuplicateInfo>)
    ensures
        found.deep_view() == folder_duplicates(folder.deep_view(), files.deep_view()),
{
    let mut found: Vec<DuplicateInfo> = Vec::new();
    append_folder_duplicates(&mut found, folder, files);
    proof {
        assert(Seq::<DuplicateModel>::empty() + folder_duplicates(
            folder.deep_view(),
            files.deep_view(),
        ) =~= folder_duplicates(folder.deep_view(), files.deep_view()));
    }
    found
}

/// Appends to `found` the files of an offer that are present in `folder`.
fn append_folder_duplicates(
    found: &mut Vec<DuplicateInfo>,
    folder: &FolderSnapshot,
    files: &Vec<FileMetadata>,
)
    ensures
        final(found).deep_view() == old(found).deep_view() + folder_duplicates(
            folder.deep_view(),
            files.deep_view(),
        ),
{
    let ghost before = found.deep_view();
    let mut i: usize = 0;
    proof {
        assert(files.deep_view().take(0) =~= Seq::<FileMetadataModel>::empty());
        assert(before + Seq::<DuplicateModel>::empty() =~= before);
    }
    while i < files.len()
        invariant
            i <= files.len(),
            found.deep_view() == before + folder_duplicates(
                folder.deep_view(),
                files.deep_view().take(i as int),
            ),
        decreases files.len() - i,
    {
        let ghost so_far = found.deep_view();
        let ghost prefix = files.deep_view().take(i as int);
        let ghost longer = files.deep_view().take(i + 1);
        proof {
            assert(longer.drop_last() =~= prefix);
            assert(longer.last() == files[i as int].deep_view());
        }
        match check_duplicate(folder, &files[i]) {
            Some(dup) => {
                found.push(dup);
                proof {
                    assert(found.deep_view() =~= so_far.push(dup.deep_view()));
                    assert(so_far.push(dup.deep_view()) =~= before + folder_duplicates(
                        folder.deep_view(),
                        longer,
                    ));
                }
            },
            None => {},
        }
        i += 1;
    }
    proof {
        assert(files.deep_view().take(files.len() as int) =~= files.deep_view());
    }
}

/// Whether an optional text is this text.
fn is_text(candidate: &Option<String>, text: &str) -> (r: bool)
    ensures
        r == (candidate.deep_view() == Some(text@)),
{
    match candidate {
        Some(c) => equals(c.as_str(), text),
        None => false,
    }
}

/// The files of an offer that are present in the folders of a scope: every
/// directory of the scope is searched, but for the excluded one, which is the
/// folder the transfer itself writes to.
pub fn find_duplicates_in_day(
    folders: &Vec<FolderSnapshot>,
    files: &Vec<FileMetadata>,
    exclude: &Option<String>,
) -> (found: Vec<DuplicateInfo>)
    ensures
        found.deep_view() == scope_duplicates(
            folders.deep_view(),
            files.deep_view(),
            exclude.deep_view(),
        ),
{
    let mut found: Vec<DuplicateInfo> = Vec::new();
    let mut i: usize = 0;
    proof {
        assert(folders.deep_view().take(0) =~= Seq::<FolderModel>::empty());
    }
    while i < folders.len()
        invariant
            i <= folders.len(),
            found.deep_view() == scope_duplicates(
                folders.deep_view().take(i as int),
                files.deep_view(),
                exclude.deep_view(),
            ),
        decreases folders.len() - i,
    {
        let ghost prefix = folders.deep_view().take(i as int);
        let ghost longer = folders.deep_view().take(i + 1);
        proof {
            assert(longer.drop_last() =~= prefix);
            assert(longer.last() == folders[i as int].deep_view());
        }
        let folder = &folders[i];
        if folder.is_dir && !is_text(exclude, folder.path.as_str()) {
            append_folder_duplicates(&mut found, folder, files);
        }
        i += 1;
    }
    proof {
        assert(folders.deep_view().take(folders.len() as int) =~= folders.deep_view());
    }
    found
}

/// Whether `found` holds a record for the file called `name`.
fn is_named(found: &Vec<DuplicateInfo>, name: &str) -> (r: bool)
    ensures
        r == names_file(found.deep_view(), name@),
{
    let ghost p = |d: DuplicateModel| d.file_name == name@;
    let mut i: usize = 0;
    while i < found.len()
        invariant
            i <= found.len(),
            p == (|d: DuplicateModel| d.file_name == name@),
            forall|j: int| 0 <= j < i ==> !p(#[trigger] found.deep_view()[j]),
        decreases found.len() - i,
    {
        if equals(found[i].file_name.as_str(), name) {
            proof {
                assert(p(found.deep_view()[i as int]));
                lemma_first_index_is(found.deep_view(), p, i as int);
            }
            return true;
        }
        i += 1;
    }
    proof {
        lemma_first_index_is(found.deep_view(), p, i as int);
    }
    false
}

/// Adds to the duplicates found in the folder of the transfer those found
/// elsewhere in the scope, leaving out every file that is named already.
pub fn merge_duplicates(found: Vec<DuplicateInfo>, more: &Vec<DuplicateInfo>) -> (all: Vec<
    DuplicateInfo,
>)
    ensures
        all.deep_view() == merged_duplicates(found.deep_view(), more.deep_view()),
{
    let mut all = found;
    let ghost first = all.deep_view();
    let mut i: usize = 0;
    proof {
        assert(more.deep_view().take(0) =~= Seq::<DuplicateModel>::empty());
    }
    while i < more.len()
        invariant
            i <= more.len(),
            all.deep_view() == merged_duplicates(first, more.deep_view().take(i as int)),
        decreases more.len() - i,
    {
        let ghost so_far = all.deep_view();
        let ghost longer = more.deep_view().take(i + 1);
        proof {
            assert(longer.drop_last() =~= more.deep_view().take(i as int));
            assert(longer.last() == more[i as int].deep_view());
        }
        if !is_named(&all, more[i].file_name.as_str()) {
            let copy = more[i].duplicate();
            all.push(copy);
            proof {
                assert(all.deep_view() =~= so_far.push(copy.deep_view()));
            }
        }
        i += 1;
    }
    proof {
        assert(more.deep_view().take(more.len() as int) =~= more.deep_view());
    }
    all
}

/// Merging adds no second record for a file: where no file is named twice in
/// what was found first, none is named twice afterwards.
pub proof fn lemma_merge_names_once(found: Seq<DuplicateModel>, more: Seq<DuplicateModel>)
    requires
        forall|i: int, j: int|
            0 <= i < j < found.len() ==> found[i].file_name != found[j].file_name,
    ensures
        forall|i: int, j: int|
            0 <= i < j < merged_duplicates(found, more).len() ==> merged_duplicates(
                found,
                more,
            )[i].file_name != merged_duplicates(found, more)[j].file_name,
        found.is_prefix_of(merged_duplicates(found, more)),
    decreases more.len(),
{
    if more.len() == 0 {
    } else {
        lemma_merge_names_once(found, more.drop_last());
        let head = merged_duplicates(found, more.drop_last());
        let name = more.last().file_name;
        let p = |d: DuplicateModel| d.file_name == name;
        lemma_first_index(head, p);
        if !names_file(head, name) {
            let all = head.push(more.last());
            assert forall|i: int, j: int| 0 <= i < j < all.len() implies all[i].file_name
                != all[j].file_name by {
                if j == head.len() {
                    assert(!p(head[i]));
                }
            }
        }
    }
}

/// Whether a record is that of one of the `files` being present in `folder`.
pub open spec fn comes_from(
    folder: FolderModel,
    files: Seq<FileMetadataModel>,
    record: DuplicateModel,
) -> bool {
    exists|i: int| 0 <= i < files.len() && duplicate_in(folder, #[trigger] files[i]) == Some(record)
}

/// Whether some record is for the file called `name`.
pub open spec fn mentions(found: Seq<DuplicateModel>, name: Seq<char>) -> bool {
    exists|k: int| 0 <= k < found.len() && (#[trigger] found[k]).file_name == name
}

/// No two of the files have the same name.
pub open spec fn names_are_distinct(files: Seq<FileMetadataModel>) -> bool {
    forall|i: int, j: int|
        0 <= i < j < files.len() ==> (#[trigger] files[i]).name != (#[trigger] files[j]).name
}

/// No two of the records are for the same file name.
pub open spec fn names_files_once(found: Seq<DuplicateModel>) -> bool {
    forall|a: int, b: int|
        0 <= a < b < found.len() ==> (#[trigger] found[a]).file_name != (
        #[trigger] found[b]).file_name
}

/// A file is named by the records exactly when one of them is for it.
pub proof fn lemma_names_file(found: Seq<DuplicateModel>, name: Seq<char>)
    ensures
        names_file(found, name) <==> mentions(found, name),
{
    let p = |d: DuplicateModel| d.file_name == name;
    lemma_first_index(found, p);
    let at = first_index(found, p);
    if at < found.len() {
        assert(found[at].file_name == name);
    } else if mentions(found, name) {
        let k = choose|k: int| 0 <= k < found.len() && (#[trigger] found[k]).file_name == name;
        assert(!p(found[k]));
    }
}

/// The scan of a folder reports every offered file that the folder holds, and
/// nothing else.
pub proof fn lemma_folder_duplicates(folder: FolderModel, files: Seq<FileMetadataModel>)
    ensures
        forall|k: int|
            0 <= k < folder_duplicates(folder, files).len() ==> comes_from(
                folder,
                files,
                #[trigger] folder_duplicates(folder, files)[k],
            ),
        forall|i: int|
            0 <= i < files.len() && duplicate_in(folder, #[trigger] files[i]) is Some
                ==> folder_duplicates(folder, files).contains(duplicate_in(folder, files[i])->0),
        names_are_distinct(files) ==> names_files_once(folder_duplicates(folder, files)),
    decreases files.len(),
{
    let all = folder_duplicates(folder, files);
    if files.len() > 0 {
        let shorter = files.drop_last();
        let head = folder_duplicates(folder, shorter);
        let last = files[files.len() - 1];
        assert(files.last() == last);
        lemma_folder_duplicates(folder, shorter);
        assert forall|k: int| 0 <= k < all.len() implies comes_from(
            folder,
            files,
            #[trigger] all[k],
        ) by {
            if k < head.len() {
                assert(all[k] == head[k]);
                assert(comes_from(folder, shorter, head[k]));
                let i = choose|i: int|
                    0 <= i < shorter.len() && duplicate_in(folder, #[trigger] shorter[i]) == Some(
                        head[k],
                    );
                assert(files[i] == shorter[i]);
            } else {
                assert(duplicate_in(folder, files[files.len() - 1]) == Some(all[k]));
            }
        }
        assert forall|i: int|
            0 <= i < files.len() && duplicate_in(
                folder,
                #[trigger] files[i],
            ) is Some implies all.contains(duplicate_in(folder, files[i])->0) by {
            if i < files.len() - 1 {
                assert(shorter[i] == files[i]);
                let wanted = duplicate_in(folder, files[i])->0;
                assert(head.contains(wanted));
                let k = choose|k: int| 0 <= k < head.len() && head[k] == wanted;
                assert(all[k] == wanted);
            } else {
                assert(all[all.len() - 1] == duplicate_in(folder, files[i])->0);
            }
        }
        if names_are_distinct(files) {
            assert(names_are_distinct(shorter)) by {
                assert forall|i: int, j: int| 0 <= i < j < shorter.len() implies (
                #[trigger] shorter[i]).name != (#[trigger] shorter[j]).name by {
                    assert(shorter[i] == files[i] && shorter[j] == files[j]);
                }
            }
            assert forall|a: int, b: int| 0 <= a < b < all.len() implies (
            #[trigger] all[a]).file_name != (#[trigger] all[b]).file_name by {
                assert(all[a] == head[a]);
                assert(comes_from(folder, shorter, head[a]));
                let i = choose|i: int|
                    0 <= i < shorter.len() && duplicate_in(folder, #[trigger] shorter[i]) == Some(
                        head[a],
                    );
                assert(files[i] == shorter[i]);
                if b < head.len() {
                    assert(all[b] == head[b]);
                } else {
                    assert(all[b].file_name == last.name);
                    assert(files[i].name != files[files.len() - 1].name);
                }
            }
        }
    }
}

/// Whether a record is that of one of the `files` being present in a folder of
/// the scope that is searched.
pub open spec fn comes_from_scope(
    folders: Seq<FolderModel>,
    files: Seq<FileMetadataModel>,
    exclude: Option<Seq<char>>,
    record: DuplicateModel,
) -> bool {
    exists|j: int|
        0 <= j < folders.len() && is_searched(#[trigger] folders[j], exclude) && comes_from(
            folders[j],
            files,
            record,
        )
}

/// The scan of a scope reports every offered file that a searched folder
/// holds, for every such folder, and nothing else.
pub proof fn lemma_scope_duplicates(
    folders: Seq<FolderModel>,
    files: Seq<FileMetadataModel>,
    exclude: Option<Seq<char>>,
)
    ensures
        forall|k: int|
            0 <= k < scope_duplicates(folders, files, exclude).len() ==> comes_from_scope(
                folders,
                files,
                exclude,
                #[trigger] scope_duplicates(folders, files, exclude)[k],
            ),
        forall|j: int, i: int|
            0 <= j < folders.len() && 0 <= i < files.len() && is_searched(
                #[trigger] folders[j],
                exclude,
            ) && duplicate_in(folders[j], #[trigger] files[i]) is Some ==> scope_duplicates(
                folders,
                files,
                exclude,
            ).contains(duplicate_in(folders[j], files[i])->0),
    decreases folders.len(),
{
    let all = scope_duplicates(folders, files, exclude);
    if folders.len() > 0 {
        let shorter = folders.drop_last();
        let head = scope_duplicates(shorter, files, exclude);
        let last = folders[folders.len() - 1];
        assert(folders.last() == last);
        let tail = folder_duplicates(last, files);
        lemma_scope_duplicates(shorter, files, exclude);
        lemma_folder_duplicates(last, files);
        assert forall|k: int| 0 <= k < all.len() implies comes_from_scope(
            folders,
            files,
            exclude,
            #[trigger] all[k],
        ) by {
            if k < head.len() {
                assert(all[k] == head[k]);
                assert(comes_from_scope(shorter, files, exclude, head[k]));
                let j = choose|j: int|
                    0 <= j < shorter.len() && is_searched(#[trigger] shorter[j], exclude)
                        && comes_from(shorter[j], files, head[k]);
                assert(folders[j] == shorter[j]);
            } else {
                assert(is_searched(last, exclude));
                assert(all[k] == tail[k - head.len()]);
                assert(comes_from(folders[folders.len() - 1], files, all[k]));
            }
        }
        assert forall|j: int, i: int|
            0 <= j < folders.len() && 0 <= i < files.len() && is_searched(
                #[trigger] folders[j],
                exclude,
            ) && duplicate_in(folders[j], #[trigger] files[i]) is Some implies all.contains(
            duplicate_in(folders[j], files[i])->0,
        ) by {
            let wanted = duplicate_in(folders[j], files[i])->0;
            if j < folders.len() - 1 {
                assert(shorter[j] == folders[j]);
                assert(head.contains(wanted));
                let k = choose|k: int| 0 <= k < head.len() && head[k] == wanted;
                assert(all[k] == wanted);
            } else {
                assert(tail.contains(wanted));
                let k = choose|k: int| 0 <= k < tail.len() && tail[k] == wanted;
                assert(all[head.len() + k] == wanted);
            }
        }
    }
}

/// What is merged holds every record found first, is for every file that a
/// record of either side is for, and holds nothing that neither side holds.
pub proof fn lemma_merged_duplicates(found: Seq<DuplicateModel>, more: Seq<DuplicateModel>)
    ensures
        found.is_prefix_of(merged_duplicates(found, more)),
        forall|k: int|
            0 <= k < merged_duplicates(found, more).len() ==> found.contains(
                #[trigger] merged_duplicates(found, more)[k],
            ) || more.contains(merged_duplicates(found, more)[k]),
        forall|name: Seq<char>|
            mentions(found, name) || mentions(more, name) ==> #[trigger] mentions(
                merged_duplicates(found, more),
                name,
            ),
    decreases more.len(),
{
    let all = merged_duplicates(found, more);
    if more.len() == 0 {
        assert forall|k: int| 0 <= k < all.len() implies found.contains(#[trigger] all[k]) by {}
    } else {
        let shorter = more.drop_last();
        let head = merged_duplicates(found, shorter);
        let last = more[more.len() - 1];
        assert(more.last() == last);
        lemma_merged_duplicates(found, shorter);
        lemma_names_file(head, last.file_name);
        assert forall|k: int| 0 <= k < all.len() implies found.contains(#[trigger] all[k])
            || more.contains(all[k]) by {
            if k < head.len() {
                assert(all[k] == head[k]);
                if !found.contains(head[k]) {
                    let a = choose|a: int| 0 <= a < shorter.len() && shorter[a] == head[k];
                    assert(more[a] == head[k]);
                }
            } else {
                assert(all[k] == more[more.len() - 1]);
            }
        }
        assert forall|name: Seq<char>| mentions(found, name) || mentions(more, name) implies #[trigger] mentions(
            all,
            name,
        ) by {
            if mentions(found, name) || mentions(shorter, name) {
                assert(mentions(head, name));
                let k = choose|k: int| 0 <= k < head.len() && (#[trigger] head[k]).file_name == name;
                assert(all[k] == head[k]);
            } else {
                let a = choose|a: int| 0 <= a < more.len() && (#[trigger] more[a]).file_name == name;
                if a < more.len() - 1 {
                    assert(shorter[a] == more[a]);
                    assert(mentions(shorter, name));
                }
                assert(last.file_name == name);
                if names_file(head, name) {
                    let k = choose|k: int|
                        0 <= k < head.len() && (#[trigger] head[k]).file_name == name;
                    assert(all[k] == head[k]);
                } else {
                    assert(all[all.len() - 1].file_name == name);
                }
            }
        }
    }
}

} // verus!
