//! Which entries of the sender's disk become files of a transfer. The caller
//! walks the folders; for every entry the library says whether it is left out,
//! walked into, or taken.

use crate::client::{FileInfo, FileInfoModel};
use crate::platform::{join_path, lowercase, path_join, to_lowercase};
use crate::text::{chars_of, equals, find_last, last_index_of, tail_from, text_of};
use vstd::prelude::*;

verus! {

/// The extensions of the files that count as media: raw images, images, and
/// video, in lower case.
pub open spec fn media_extensions() -> Seq<Seq<char>> {
    seq![
        "cr2"@,
        "cr3"@,
        "crw"@,
        "nef"@,
        "nrw"@,
        "arw"@,
        "srf"@,
        "sr2"@,
        "raf"@,
        "rw2"@,
        "rwl"@,
        "orf"@,
        "pef"@,
        "ptx"@,
        "srw"@,
        "3fr"@,
        "fff"@,
        "iiq"@,
        "x3f"@,
        "gpr"@,
        "dng"@,
        "raw"@,
        "jpg"@,
        "jpeg"@,
        "png"@,
        "tiff"@,
        "tif"@,
        "heic"@,
        "heif"@,
        "webp"@,
        "bmp"@,
        "gif"@,
        "mp4"@,
        "mov"@,
        "avi"@,
        "mkv"@,
        "mxf"@,
        "m4v"@,
        "wmv"@,
        "braw"@,
        "r3d"@,
        "crm"@,
    ]
}

/// The extensions of the files that count as media; see [`media_extensions`].
pub fn get_media_extensions_list() -> (list: Vec<&'static str>)
    ensures
        list.deep_view() == media_extensions(),
{
    let list: Vec<&'static str> = vec![
        "cr2", "cr3", "crw", "nef", "nrw", "arw", "srf", "sr2", "raf", "rw2", "rwl", "orf", "pef",
        "ptx", "srw", "3fr", "fff", "iiq", "x3f", "gpr", "dng", "raw", "jpg", "jpeg", "png",
        "tiff", "tif", "heic", "heif", "webp", "bmp", "gif", "mp4", "mov", "avi", "mkv", "mxf",
        "m4v", "wmv", "braw", "r3d", "crm",
    ];
    proof {
        assert(list.deep_view() =~= media_extensions());
    }
    list
}

/// The extension of a file name: what follows its last `.`, unless the name has
/// no `.` but at its start, or is `..`.
pub open spec fn extension_of(name: Seq<char>) -> Option<Seq<char>> {
    let dot = last_index_of(name, '.');
    if dot <= 0 || name == ".."@ {
        None
    } else {
        Some(name.skip(dot + 1))
    }
}

/// Whether a file name is that of a media file: whether its extension, in lower
/// case, is one of [`media_extensions`].
pub open spec fn is_media_name(name: Seq<char>) -> bool {
    match extension_of(name) {
        Some(extension) => media_extensions().contains(lowercase(extension)),
        None => false,
    }
}

/// Whether a name is hidden: whether it begins with `.`.
pub open spec fn is_hidden(name: Seq<char>) -> bool {
    name.len() > 0 && name[0] == '.'
}

/// The extension of a file name; see [`extension_of`].
pub fn file_extension(name: &str) -> (extension: Option<String>)
    ensures
        extension.deep_view() == extension_of(name@),
{
    if equals(name, "..") {
        return None;
    }
    let chars = chars_of(name);
    match find_last(&chars, '.') {
        Some(dot) => {
            if dot == 0 {
                None
            } else {
                Some(text_of(&tail_from(&chars, dot + 1)))
            }
        },
        None => None,
    }
}

/// Whether a file name is that of a media file; see [`is_media_name`].
pub fn is_media_file_name(name: &str) -> (r: bool)
    ensures
        r == is_media_name(name@),
{
    match file_extension(name) {
        Some(extension) => {
            let lower = to_lowercase(extension.as_str());
            let list = get_media_extensions_list();
            let mut i: usize = 0;
            while i < list.len()
                invariant
                    i <= list.len(),
                    list.deep_view() == media_extensions(),
                    extension_of(name@) == Some(extension@),
                    lower@ == lowercase(extension@),
                    forall|j: int| 0 <= j < i ==> #[trigger] media_extensions()[j] != lower@,
                decreases list.len() - i,
            {
                proof {
                    assert(list.deep_view()[i as int] == list[i as int]@);
                }
                if equals(list[i], lower.as_str()) {
                    assert(media_extensions()[i as int] == lower@);
                    return true;
                }
                i += 1;
            }
            false
        },
        None => false,
    }
}

/// Whether a name is hidden.
pub fn is_hidden_name(name: &str) -> (r: bool)
    ensures
        r == is_hidden(name@),
{
    let chars = chars_of(name);
    chars.len() > 0 && chars[0] == '.'
}

/// What an entry of the disk is.
#[derive(Clone, Copy, Debug, PartialEq, Eq, Structural)]
pub enum EntryKind {
    File,
    Directory,
    Other,
}

/// What is done with an entry.
#[derive(Clone, Copy, Debug, PartialEq, Eq, Structural)]
pub enum Visit {
    /// It is left out.
    Skip,
    /// It is a folder whose entries are visited in turn.
    Descend,
    /// It is a file of the transfer.
    Take,
}

/// What is done with a path that the user chose for a transfer: a folder is
/// walked into, a file is taken, anything else is left out.
pub fn visit_chosen(kind: EntryKind) -> (visit: Visit)
    ensures
        visit == (match kind {
            EntryKind::Directory => Visit::Descend,
            EntryKind::File => Visit::Take,
            EntryKind::Other => Visit::Skip,
        }),
{
    match kind {
        EntryKind::Directory => Visit::Descend,
        EntryKind::File => Visit::Take,
        EntryKind::Other => Visit::Skip,
    }
}

/// What is done with an entry found inside a folder of a transfer: hidden
/// entries are left out, folders are walked into, files are taken.
pub fn visit_entry(name: &str, kind: EntryKind) -> (visit: Visit)
    ensures
        visit == (if is_hidden(name@) {
            Visit::Skip
        } else {
            match kind {
                EntryKind::Directory => Visit::Descend,
                EntryKind::File => Visit::Take,
                EntryKind::Other => Visit::Skip,
            }
        }),
{
    if is_hidden_name(name) {
        Visit::Skip
    } else {
        visit_chosen(kind)
    }
}

/// What is done with a path when media files are looked for: a media file is
/// taken, a folder is walked into, anything else is left out. `inside` says
/// whether the path was found inside a folder, where hidden entries are left
/// out.
pub fn visit_for_media(name: &str, kind: EntryKind, inside: bool) -> (visit: Visit)
    ensures
        visit == (if inside && is_hidden(name@) {
            Visit::Skip
        } else {
            match kind {
                EntryKind::Directory => Visit::Descend,
                EntryKind::File => if is_media_name(name@) {
                    Visit::Take
                } else {
                    Visit::Skip
                },
                EntryKind::Other => Visit::Skip,
            }
        }),
{
    if inside && is_hidden_name(name) {
        return Visit::Skip;
    }
    match kind {
        EntryKind::Directory => Visit::Descend,
        EntryKind::File => {
            if is_media_file_name(name) {
                Visit::Take
            } else {
                Visit::Skip
            }
        },
        EntryKind::Other => Visit::Skip,
    }
}

/// Where an entry goes below the destination folder: under its name where it
/// lies directly in the folder that is sent, else under the path of its folder
/// and its name.
pub open spec fn relative_below(parent: Seq<char>, name: Seq<char>) -> Seq<char> {
    if parent.len() == 0 {
        name
    } else {
        path_join(parent, name)
    }
}

/// The file of a transfer that an entry inside a folder becomes. `parent` is
/// the path of the entry's folder below the folder that is sent, empty for that
/// folder itself.
pub fn file_in_folder(path: &str, parent: &str, name: &str, size: u64) -> (file: FileInfo)
    ensures
        file.deep_view() == (FileInfoModel {
            path: path@,
            name: name@,
            relative_path: relative_below(parent@, name@),
            size,
        }),
{
    let relative_path = if parent.is_empty() {
        name.to_owned()
    } else {
        join_path(parent, name)
    };
    FileInfo { path: path.to_owned(), name: name.to_owned(), relative_path, size }
}

} // verus!
