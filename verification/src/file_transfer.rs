//! Native file transfers and the clipboard formats that carry them.

use crate::chars::{
    decimal, decimal_string, decode_text, encode_text, join, joined, lines, lines_of, parse_u64,
    parsed_u64, same_text, split_at, texts,
};
use crate::file_url::{
    file_url, local_file, local_file_path, printing_ascii, reads_back, survives_in_url,
    url_file_path, url_from_file_path,
};
use crate::paths::{
    all_path_bytes, path_bytes, path_list, rooted, same_paths, PathList, PathSystem,
};
use std::path::PathBuf;
use vstd::prelude::*;
use vstd::utf8::{decode_utf8, encode_utf8, valid_utf8};

verus! {

/// Negotiated operation for a native file transfer.
#[derive(Clone, Copy, Debug, PartialEq, Eq, Structural)]
pub enum FileTransferOperation {
    /// Duplicate source items at the destination.
    Copy,
    /// Transfer ownership of source items after successful completion.
    Move,
}

impl Default for FileTransferOperation {
    fn default() -> (operation: FileTransferOperation)
        ensures
            operation == FileTransferOperation::Copy,
    {
        FileTransferOperation::Copy
    }
}

/// Pathnames that come from outside the application.
#[derive(Debug, PartialEq, Eq)]
pub struct ExternalPaths(pub PathList);

impl View for ExternalPaths {
    type V = Seq<Seq<u8>>;

    open spec fn view(&self) -> Seq<Seq<u8>> {
        self.0@
    }
}

impl ExternalPaths {
    /// The pathnames of a list.
    pub fn new(paths: Vec<PathBuf>) -> (external: ExternalPaths)
        ensures
            external@ == all_path_bytes(paths@),
    {
        ExternalPaths(PathList::new(paths))
    }

    /// The pathnames, in order.
    pub fn paths(&self) -> (paths: &[PathBuf])
        ensures
            paths@ == path_list(self.0),
            all_path_bytes(paths@) == self@,
    {
        self.0.as_slice()
    }
}

impl Clone for ExternalPaths {
    fn clone(&self) -> (copy: ExternalPaths)
        ensures
            copy@ == self@,
    {
        ExternalPaths(self.0.clone())
    }
}

/// Native files are distinct from strings that happen to contain paths.
#[derive(Debug, PartialEq, Eq)]
pub struct FileTransfer {
    /// Absolute, native source pathnames.
    pub paths: ExternalPaths,
    /// Requested operation before negotiation.
    pub operation: FileTransferOperation,
    /// Application-generated token, preserved only by a compatible owner.
    pub ownership: u64,
}

/// A [`FileTransfer`] with its pathnames as bytes.
#[verifier::ext_equal]
pub struct FileTransferView {
    pub paths: Seq<Seq<u8>>,
    pub operation: FileTransferOperation,
    pub ownership: u64,
}

impl View for FileTransfer {
    type V = FileTransferView;

    open spec fn view(&self) -> FileTransferView {
        FileTransferView {
            paths: self.paths@,
            operation: self.operation,
            ownership: self.ownership,
        }
    }
}

impl Clone for FileTransfer {
    fn clone(&self) -> (copy: FileTransfer)
        ensures
            copy@ == self@,
    {
        FileTransfer {
            paths: self.paths.clone(),
            operation: self.operation,
            ownership: self.ownership,
        }
    }
}

/// Native file clipboard format identifier.
pub const FILE_TRANSFER_MIME: &'static str = "application/x-gpui-file-transfer";

/// Native file clipboard format identifier.
pub const COPIED_FILES_MIME: &'static str = "x-special/gnome-copied-files";

/// Native file clipboard format identifier.
pub const URI_LIST_MIME: &'static str = "text/uri-list";

/// Native file clipboard format identifier.
pub const KDE_CUT_MIME: &'static str = "application/x-kde-cutselection";

// ---------------------------------------------------------------------------
// What the formats hold

/// The word for an operation in the formats that begin with one.
pub open spec fn operation_word(operation: FileTransferOperation) -> Seq<char> {
    match operation {
        FileTransferOperation::Move => "cut"@,
        FileTransferOperation::Copy => "copy"@,
    }
}

/// The URLs of the pathnames that have one, in order.
pub open spec fn file_urls(windows: bool, paths: Seq<Seq<u8>>) -> Seq<Seq<char>>
    decreases paths.len(),
{
    if paths.len() == 0 {
        Seq::empty()
    } else {
        let before = file_urls(windows, paths.drop_last());
        match file_url(windows, paths.last()) {
            Some(url) => before.push(url),
            None => before,
        }
    }
}

/// Lines that each end in a carriage return and a line feed.
pub open spec fn crlf_lines(lines: Seq<Seq<char>>) -> Seq<char>
    decreases lines.len(),
{
    if lines.len() == 0 {
        Seq::empty()
    } else {
        lines[0] + seq!['\r', '\n'] + crlf_lines(lines.skip(1))
    }
}

/// The text in one of the advertised formats of a transfer of the files that URLs name;
/// none for another format.
pub open spec fn url_payload(
    urls: Seq<Seq<char>>,
    operation: FileTransferOperation,
    ownership: u64,
    mime: Seq<char>,
) -> Option<Seq<char>> {
    let word = operation_word(operation);
    if mime == URI_LIST_MIME@ {
        Some(crlf_lines(urls))
    } else if mime == COPIED_FILES_MIME@ {
        Some(word + seq!['\n'] + joined(urls, "\n"@))
    } else if mime == FILE_TRANSFER_MIME@ {
        Some(word + seq!['\n'] + (decimal(ownership as nat) + seq!['\n'] + crlf_lines(urls)))
    } else if mime == KDE_CUT_MIME@ {
        Some(
            match operation {
                FileTransferOperation::Move => "1"@,
                FileTransferOperation::Copy => "0"@,
            },
        )
    } else {
        None
    }
}

/// The text of a transfer in one of the advertised formats; none for another
/// format.
pub open spec fn payload_text(windows: bool, files: FileTransferView, mime: Seq<char>) -> Option<
    Seq<char>,
> {
    url_payload(file_urls(windows, files.paths), files.operation, files.ownership, mime)
}

/// The operation that a word stands for.
pub open spec fn word_operation(word: Seq<char>) -> Option<FileTransferOperation> {
    if word == "copy"@ {
        Some(FileTransferOperation::Copy)
    } else if word == "cut"@ {
        Some(FileTransferOperation::Move)
    } else {
        None
    }
}

/// Whether a line names a file: it is neither empty nor a comment.
pub open spec fn names_file(line: Seq<char>) -> bool {
    line.len() > 0 && line[0] != '#'
}

/// The lines that name files.
pub open spec fn file_lines(lines: Seq<Seq<char>>) -> Seq<Seq<char>> {
    lines.filter(|line: Seq<char>| names_file(line))
}

/// The transfer of the files that were read one per line, if there are any and each line
/// gave one.
pub open spec fn read_files(
    read: Seq<Option<Seq<u8>>>,
    operation: FileTransferOperation,
    ownership: u64,
) -> Option<FileTransferView> {
    if read.len() > 0 && forall|i: int| 0 <= i < read.len() ==> (#[trigger] read[i]) is Some {
        Some(
            FileTransferView {
                paths: read.map_values(|path: Option<Seq<u8>>| path->0),
                operation,
                ownership,
            },
        )
    } else {
        None
    }
}

/// The pathname of the local file that each line names, if it names one.
pub open spec fn local_files(windows: bool, lines: Seq<Seq<char>>) -> Seq<Option<Seq<u8>>> {
    lines.map_values(|line: Seq<char>| local_file(windows, line))
}

/// What the formats say before they list files: the operation, the ownership token, and
/// the lines that follow.
pub struct Listing {
    pub operation: FileTransferOperation,
    pub ownership: u64,
    /// The lines that name files.
    pub lines: Vec<String>,
}

/// A [`Listing`] as characters.
pub struct ListingView {
    pub operation: FileTransferOperation,
    pub ownership: u64,
    pub lines: Seq<Seq<char>>,
}

impl View for Listing {
    type V = ListingView;

    open spec fn view(&self) -> ListingView {
        ListingView {
            operation: self.operation,
            ownership: self.ownership,
            lines: texts(self.lines@),
        }
    }
}

/// The view of a listing that may be missing.
pub open spec fn listing_view(listing: Option<Listing>) -> Option<ListingView> {
    match listing {
        Some(listing) => Some(listing@),
        None => None,
    }
}

/// What a text lists in a typed native format.
pub open spec fn listed_text(text: Seq<char>, mime: Seq<char>) -> Option<ListingView> {
    let lines = lines_of(text);
    if mime == URI_LIST_MIME@ {
        Some(
            ListingView {
                operation: FileTransferOperation::Copy,
                ownership: 0,
                lines: file_lines(lines),
            },
        )
    } else if mime == FILE_TRANSFER_MIME@ {
        if lines.len() < 2 || word_operation(lines[0]) is None || parsed_u64(lines[1]) is None {
            None
        } else {
            Some(
                ListingView {
                    operation: word_operation(lines[0])->0,
                    ownership: parsed_u64(lines[1])->0,
                    lines: file_lines(lines.skip(2)),
                },
            )
        }
    } else if mime == COPIED_FILES_MIME@ {
        if lines.len() < 1 || word_operation(lines[0]) is None {
            None
        } else {
            Some(
                ListingView {
                    operation: word_operation(lines[0])->0,
                    ownership: 0,
                    lines: file_lines(lines.skip(1)),
                },
            )
        }
    } else {
        None
    }
}

/// The transfer that a text describes in a typed native format.
pub open spec fn decoded_text(windows: bool, text: Seq<char>, mime: Seq<char>) -> Option<
    FileTransferView,
> {
    match listed_text(text, mime) {
        Some(listing) => read_files(
            local_files(windows, listing.lines),
            listing.operation,
            listing.ownership,
        ),
        None => None,
    }
}

/// The transfer that bytes describe in a typed native format.
pub open spec fn decoded_files(windows: bool, bytes: Seq<u8>, mime: Seq<char>) -> Option<
    FileTransferView,
> {
    if valid_utf8(bytes) {
        decoded_text(windows, decode_utf8(bytes), mime)
    } else {
        None
    }
}

/// The view of a transfer that may be missing.
pub open spec fn transfer_view(files: Option<FileTransfer>) -> Option<FileTransferView> {
    match files {
        Some(files) => Some(files@),
        None => None,
    }
}

// ---------------------------------------------------------------------------
// Encoding and decoding

/// What a pathname's URL keeps of it, whichever pathname it is: the URL fits on a line,
/// and where it reads back it names a local file. A pathname that says the same inside a
/// URL has one, which reads back; on Unix every absolute pathname has a URL.
pub open spec fn url_keeps(windows: bool, bytes: Seq<u8>) -> bool {
    &&& file_url(windows, bytes) is Some ==> file_url(windows, bytes)->0.len() > 0 && file_url(
        windows,
        bytes,
    )->0[0] == 'f' && printing_ascii(file_url(windows, bytes)->0)
    &&& reads_back(windows, bytes) ==> local_file(windows, file_url(windows, bytes)->0)
        == url_file_path(windows, file_url(windows, bytes)->0)
    &&& !windows ==> (file_url(windows, bytes) is Some <==> rooted(bytes))
    &&& survives_in_url(windows, bytes) ==> reads_back(windows, bytes)
}

/// Whether decoding gives back the files that were encoded, with the operation and
/// the ownership token as far as the format carries them.
pub open spec fn gives_back(
    windows: bool,
    decoded: Option<FileTransferView>,
    files: FileTransferView,
    mime: Seq<char>,
) -> bool {
    &&& decoded is Some
    &&& same_paths(windows, decoded->0.paths, files.paths)
    &&& decoded->0.operation == if mime == URI_LIST_MIME@ {
        FileTransferOperation::Copy
    } else {
        files.operation
    }
    &&& decoded->0.ownership == if mime == FILE_TRANSFER_MIME@ {
        files.ownership
    } else {
        0
    }
}

/// The formats that can be decoded.
pub open spec fn typed_format(mime: Seq<char>) -> bool {
    mime == URI_LIST_MIME@ || mime == COPIED_FILES_MIME@ || mime == FILE_TRANSFER_MIME@
}

/// Whether a transfer has files, and the URL of each reads back.
pub open spec fn can_travel(windows: bool, files: FileTransferView) -> bool {
    files.paths.len() > 0 && forall|i: int|
        0 <= i < files.paths.len() ==> reads_back(windows, #[trigger] files.paths[i])
}

/// Whether a transfer has files, and the pathname of each says the same inside a URL.
pub open spec fn all_survive_in_urls(windows: bool, files: FileTransferView) -> bool {
    files.paths.len() > 0 && forall|i: int|
        0 <= i < files.paths.len() ==> survives_in_url(windows, #[trigger] files.paths[i])
}

proof fn lemma_file_urls_of_all(windows: bool, paths: Seq<Seq<u8>>)
    requires
        forall|i: int| 0 <= i < paths.len() ==> file_url(windows, #[trigger] paths[i]) is Some,
    ensures
        file_urls(windows, paths).len() == paths.len(),
        forall|i: int|
            0 <= i < paths.len() ==> #[trigger] file_urls(windows, paths)[i] == file_url(
                windows,
                paths[i],
            )->0,
    decreases paths.len(),
{
    if paths.len() > 0 {
        let before = paths.drop_last();
        assert forall|i: int| 0 <= i < before.len() implies file_url(
            windows,
            #[trigger] before[i],
        ) is Some by {
            assert(before[i] == paths[i]);
        }
        lemma_file_urls_of_all(windows, before);
        assert(file_url(windows, paths[paths.len() - 1]) is Some);
        assert forall|i: int| 0 <= i < paths.len() implies #[trigger] file_urls(windows, paths)[i]
            == file_url(windows, paths[i])->0 by {
            if i < before.len() {
                assert(file_urls(windows, before)[i] == file_url(windows, before[i])->0);
            }
        }
    }
}

/// Whether the lines of a text, one between every two line feeds, are an operation and
/// then URLs, none of them empty.
pub open spec fn lists_urls_by_line(
    text: Seq<char>,
    operation: FileTransferOperation,
    urls: Seq<Seq<char>>,
) -> bool {
    let lines = split_at(text, '\n');
    &&& lines == seq![operation_word(operation)] + urls
    &&& forall|i: int| 0 <= i < lines.len() ==> (#[trigger] lines[i]).len() > 0
}

proof fn lemma_file_urls_are_lines(windows: bool, paths: Seq<Seq<u8>>)
    requires
        forall|i: int| 0 <= i < paths.len() ==> url_keeps(windows, #[trigger] paths[i]),
    ensures
        forall|i: int|
            0 <= i < file_urls(windows, paths).len() ==> is_url_line(
                #[trigger] file_urls(windows, paths)[i],
            ),
    decreases paths.len(),
{
    if paths.len() > 0 {
        let before = paths.drop_last();
        assert forall|i: int| 0 <= i < before.len() implies url_keeps(
            windows,
            #[trigger] before[i],
        ) by {
            assert(before[i] == paths[i]);
        }
        lemma_file_urls_are_lines(windows, before);
        assert(url_keeps(windows, paths[paths.len() - 1]));
        assert forall|i: int| 0 <= i < file_urls(windows, paths).len() implies is_url_line(
            #[trigger] file_urls(windows, paths)[i],
        ) by {
            if i < file_urls(windows, before).len() {
                assert(file_urls(windows, before)[i] == file_urls(windows, paths)[i]);
            }
        }
    }
}

proof fn lemma_copied_files_by_line(windows: bool, files: FileTransferView)
    requires
        file_urls(windows, files.paths).len() > 0,
        forall|i: int| 0 <= i < files.paths.len() ==> url_keeps(windows, #[trigger] files.paths[i]),
    ensures
        lists_urls_by_line(
            payload_text(windows, files, COPIED_FILES_MIME@)->0,
            files.operation,
            file_urls(windows, files.paths),
        ),
{
    reveal_strlit("cut");
    reveal_strlit("copy");
    reveal_strlit("text/uri-list");
    reveal_strlit("x-special/gnome-copied-files");
    assert(URI_LIST_MIME@.len() != COPIED_FILES_MIME@.len());
    reveal_strlit("\n");
    assert("\n"@ =~= seq!['\n']);
    let urls = file_urls(windows, files.paths);
    let word = operation_word(files.operation);
    let lines = seq![word] + urls;
    lemma_file_urls_are_lines(windows, files.paths);
    assert forall|i: int| 0 <= i < lines.len() implies !(#[trigger] lines[i]).contains('\n')
        && lines[i].len() > 0 by {
        if i > 0 {
            assert(is_url_line(urls[i - 1]));
        }
    }
    crate::chars::lemma_joined_front(lines, "\n"@);
    assert(lines.skip(1) =~= urls);
    assert(payload_text(windows, files, COPIED_FILES_MIME@)->0 =~= joined(lines, "\n"@));
    crate::chars::lemma_split_joined(lines, '\n');
}

/// Whether a text can be one line of a list and names a file there.
spec fn is_url_line(line: Seq<char>) -> bool {
    line.len() > 0 && line[0] == 'f' && printing_ascii(line)
}

proof fn lemma_lines_of_crlf_lines(lines: Seq<Seq<char>>)
    requires
        forall|i: int| 0 <= i < lines.len() ==> is_url_line(#[trigger] lines[i]),
    ensures
        lines_of(crlf_lines(lines)) == lines,
    decreases lines.len(),
{
    if lines.len() == 0 {
        assert(lines_of(crlf_lines(lines)) =~= lines);
    } else {
        let rest = lines.skip(1);
        assert forall|i: int| 0 <= i < rest.len() implies is_url_line(#[trigger] rest[i]) by {
            assert(rest[i] == lines[i + 1]);
        }
        lemma_lines_of_crlf_lines(rest);
        let line = lines[0] + seq!['\r'];
        assert(is_url_line(lines[0]));
        assert(!line.contains('\n')) by {
            assert forall|i: int| 0 <= i < line.len() implies line[i] != '\n' by {
                if i < lines[0].len() {
                    assert(line[i] == lines[0][i]);
                }
            }
        }
        crate::chars::lemma_lines_of_prefix(line, crlf_lines(rest));
        assert(crlf_lines(lines) =~= line + seq!['\n'] + crlf_lines(rest));
        assert(line.drop_last() =~= lines[0]);
        assert(lines =~= seq![lines[0]] + rest);
    }
}

proof fn lemma_lines_of_joined(lines: Seq<Seq<char>>)
    requires
        lines.len() > 0,
        forall|i: int| 0 <= i < lines.len() ==> is_url_line(#[trigger] lines[i]),
    ensures
        lines_of(joined(lines, "\n"@)) == lines,
    decreases lines.len(),
{
    reveal_strlit("\n");
    assert("\n"@ =~= seq!['\n']);
    assert(is_url_line(lines[0]));
    assert forall|i: int| 0 <= i < lines[0].len() implies lines[0][i] != '\n' by {}
    if lines.len() == 1 {
        crate::chars::lemma_lines_of_single(lines[0]);
        assert(lines =~= seq![lines[0]]);
    } else {
        let rest = lines.skip(1);
        assert forall|i: int| 0 <= i < rest.len() implies is_url_line(#[trigger] rest[i]) by {
            assert(rest[i] == lines[i + 1]);
        }
        lemma_lines_of_joined(rest);
        crate::chars::lemma_joined_front(lines, "\n"@);
        crate::chars::lemma_lines_of_prefix(lines[0], joined(rest, "\n"@));
        assert(lines =~= seq![lines[0]] + rest);
    }
}

proof fn lemma_filter_keeps_all(lines: Seq<Seq<char>>)
    requires
        forall|i: int| 0 <= i < lines.len() ==> names_file(#[trigger] lines[i]),
    ensures
        file_lines(lines) == lines,
    decreases lines.len(),
{
    reveal(Seq::filter);
    if lines.len() > 0 {
        let before = lines.drop_last();
        assert forall|i: int| 0 <= i < before.len() implies names_file(#[trigger] before[i]) by {
            assert(before[i] == lines[i]);
        }
        lemma_filter_keeps_all(before);
        assert(names_file(lines[lines.len() - 1]));
        assert(before.push(lines.last()) =~= lines);
    }
}

/// The files whose URLs lines hold are the files that are read from the lines.
proof fn lemma_listed_files(
    windows: bool,
    paths: Seq<Seq<u8>>,
    operation: FileTransferOperation,
    ownership: u64,
)
    requires
        paths.len() > 0,
        forall|i: int|
            0 <= i < paths.len() ==> reads_back(windows, #[trigger] paths[i]) && url_keeps(
                windows,
                paths[i],
            ),
    ensures
        forall|i: int|
            0 <= i < file_urls(windows, paths).len() ==> is_url_line(
                #[trigger] file_urls(windows, paths)[i],
            ),
        file_urls(windows, paths).len() == paths.len(),
        file_lines(file_urls(windows, paths)) == file_urls(windows, paths),
        read_files(
            local_files(windows, file_urls(windows, paths)),
            operation,
            ownership,
        ) matches Some(files) && same_paths(windows, files.paths, paths) && files.operation
            == operation && files.ownership == ownership,
{
    let urls = file_urls(windows, paths);
    assert forall|i: int| 0 <= i < paths.len() implies file_url(
        windows,
        #[trigger] paths[i],
    ) is Some by {
        assert(reads_back(windows, paths[i]));
    }
    lemma_file_urls_of_all(windows, paths);
    assert forall|i: int| 0 <= i < urls.len() implies is_url_line(#[trigger] urls[i]) by {
        assert(url_keeps(windows, paths[i]));
    }
    assert forall|i: int| 0 <= i < urls.len() implies names_file(#[trigger] urls[i]) by {
        assert(is_url_line(urls[i]));
    }
    lemma_filter_keeps_all(urls);
    let read = local_files(windows, urls);
    assert forall|i: int| 0 <= i < read.len() implies (#[trigger] read[i]) is Some
        && crate::paths::equal_paths(windows, read[i]->0, paths[i]) by {
        assert(reads_back(windows, paths[i]) && url_keeps(windows, paths[i]));
        assert(read[i] == local_file(windows, urls[i]));
    }
    let found = read_files(read, operation, ownership)->0.paths;
    assert forall|i: int| 0 <= i < found.len() implies crate::paths::equal_paths(
        windows,
        #[trigger] found[i],
        paths[i],
    ) by {
        assert(found[i] == read[i]->0);
    }
}

/// Decoding what was encoded gives back the files.
proof fn lemma_payload_gives_back(windows: bool, files: FileTransferView, mime: Seq<char>)
    requires
        typed_format(mime),
        can_travel(windows, files),
        forall|i: int| 0 <= i < files.paths.len() ==> url_keeps(windows, #[trigger] files.paths[i]),
    ensures
        gives_back(
            windows,
            decoded_text(windows, payload_text(windows, files, mime)->0, mime),
            files,
            mime,
        ),
{
    reveal_strlit("cut");
    reveal_strlit("copy");
    reveal_strlit("text/uri-list");
    reveal_strlit("x-special/gnome-copied-files");
    reveal_strlit("application/x-gpui-file-transfer");
    assert(URI_LIST_MIME@.len() != COPIED_FILES_MIME@.len());
    assert(URI_LIST_MIME@.len() != FILE_TRANSFER_MIME@.len());
    assert(COPIED_FILES_MIME@.len() != FILE_TRANSFER_MIME@.len());
    let word = operation_word(files.operation);
    let urls = file_urls(windows, files.paths);
    assert(!word.contains('\n') && without_cr_is_same(word));
    assert("cut"@.len() != "copy"@.len());
    assert(word_operation(word) == Some(files.operation));
    lemma_listed_files(windows, files.paths, FileTransferOperation::Copy, 0);
    lemma_listed_files(windows, files.paths, files.operation, 0);
    lemma_listed_files(windows, files.paths, files.operation, files.ownership);
    lemma_lines_of_crlf_lines(urls);
    if mime == URI_LIST_MIME@ {
    } else if mime == COPIED_FILES_MIME@ {
        lemma_lines_of_joined(urls);
        crate::chars::lemma_lines_of_prefix(word, joined(urls, "\n"@));
        assert((seq![word] + urls).skip(1) =~= urls);
    } else {
        let number = decimal(files.ownership as nat);
        crate::chars::lemma_decimal_value(files.ownership as nat);
        crate::chars::lemma_decimal_reads_back(files.ownership);
        assert forall|i: int| 0 <= i < number.len() implies number[i] != '\n' && number[i]
            != '\r' by {
            assert(crate::chars::is_digit(number[i]));
        }
        crate::chars::lemma_lines_of_prefix(number, crlf_lines(urls));
        crate::chars::lemma_lines_of_prefix(word, number + seq!['\n'] + crlf_lines(urls));
        assert((seq![word] + (seq![number] + urls)).skip(2) =~= urls);
    }
}

spec fn without_cr_is_same(s: Seq<char>) -> bool {
    crate::chars::without_cr(s) == s
}

/// The URLs of the pathnames that have one, and what they keep.
fn urls_of(paths: &[PathBuf], system: PathSystem) -> (urls: Vec<String>)
    ensures
        texts(urls@) == file_urls(system@, all_path_bytes(paths@)),
        forall|i: int|
            0 <= i < paths.len() ==> url_keeps(system@, #[trigger] all_path_bytes(paths@)[i]),
{
    let mut urls: Vec<String> = Vec::new();
    let ghost all = all_path_bytes(paths@);
    let mut i: usize = 0;
    assert(all.take(0) =~= Seq::empty());
    assert(texts(urls@) =~= Seq::empty());
    while i < paths.len()
        invariant
            i <= paths.len(),
            all == all_path_bytes(paths@),
            texts(urls@) == file_urls(system@, all.take(i as int)),
            forall|k: int| 0 <= k < i ==> url_keeps(system@, #[trigger] all[k]),
        decreases paths.len() - i,
    {
        let url = url_from_file_path(system, &paths[i]);
        let ghost before = urls@;
        assert(all.take(i + 1).drop_last() =~= all.take(i as int));
        assert(all.take(i + 1).last() == path_bytes(paths@[i as int]));
        assert(url_keeps(system@, all[i as int]));
        match url {
            Some(url) => {
                urls.push(url);
                assert(texts(urls@) =~= texts(before).push(url@));
            },
            None => {},
        }
        i = i + 1;
    }
    assert(all.take(i as int) =~= all);
    urls
}

/// Lines that each end in a carriage return and a line feed.
fn crlf_text(list: &Vec<String>) -> (text: String)
    ensures
        text@ == crlf_lines(texts(list@)),
{
    let mut text = String::new();
    let mut i: usize = 0;
    let ghost all = texts(list@);
    assert(all.skip(0) =~= all);
    assert(text@ + crlf_lines(all.skip(0)) =~= crlf_lines(all));
    while i < list.len()
        invariant
            i <= list.len(),
            all == texts(list@),
            text@ + crlf_lines(all.skip(i as int)) == crlf_lines(all),
        decreases list.len() - i,
    {
        let ghost before = text@;
        text.append(list[i].as_str());
        text.push('\r');
        text.push('\n');
        assert(all.skip(i as int).skip(1) =~= all.skip(i + 1));
        assert(all.skip(i as int)[0] == list@[i as int]@);
        i = i + 1;
        assert(text@ + crlf_lines(all.skip(i as int)) =~= before + crlf_lines(all.skip(i - 1)));
    }
    assert(text@ + crlf_lines(all.skip(i as int)) =~= text@);
    text
}

/// Encodes, in one of the advertised file clipboard formats, a transfer of the files that
/// URLs name.
pub fn payload_of_urls(
    urls: &Vec<String>,
    operation: FileTransferOperation,
    ownership: u64,
    mime: &str,
) -> (bytes: Option<Vec<u8>>)
    ensures
        bytes is Some <==> url_payload(texts(urls@), operation, ownership, mime@) is Some,
        bytes is Some ==> bytes->0@ == encode_utf8(
            url_payload(texts(urls@), operation, ownership, mime@)->0,
        ),
{
    let ghost payload = url_payload(texts(urls@), operation, ownership, mime@);
    let mut text = String::new();
    if same_text(mime, URI_LIST_MIME) {
        text = crlf_text(urls);
    } else if same_text(mime, COPIED_FILES_MIME) {
        // Nautilus splits on LF and rejects empty lines, including a
        // trailing newline. This is distinct from RFC text/uri-list.
        text.append(word_of(operation));
        text.push('\n');
        text.append(join(urls, "\n").as_str());
        assert(text@ =~= payload->0);
    } else if same_text(mime, FILE_TRANSFER_MIME) {
        text.append(word_of(operation));
        text.push('\n');
        text.append(decimal_string(ownership).as_str());
        text.push('\n');
        text.append(crlf_text(urls).as_str());
        assert(text@ =~= payload->0);
    } else if same_text(mime, KDE_CUT_MIME) {
        text.append(
            match operation {
                FileTransferOperation::Move => "1",
                FileTransferOperation::Copy => "0",
            },
        );
        assert(text@ =~= payload->0);
    } else {
        return None;
    }
    Some(encode_text(text.as_str()))
}

impl FileTransfer {
    /// Encode local file URLs with native path escaping. Each is of printing ASCII
    /// characters and stands on a line of its own.
    pub fn uri_list(&self, system: PathSystem) -> (bytes: Vec<u8>)
        ensures
            bytes@ == encode_utf8(crlf_lines(file_urls(system@, self@.paths))),
            lines_of(decode_utf8(bytes@)) == file_urls(system@, self@.paths),
            forall|i: int|
                0 <= i < file_urls(system@, self@.paths).len() ==> printing_ascii(
                    #[trigger] file_urls(system@, self@.paths)[i],
                ),
    {
        let urls = urls_of(self.paths.paths(), system);
        proof {
            lemma_file_urls_are_lines(system@, self@.paths);
            lemma_lines_of_crlf_lines(file_urls(system@, self@.paths));
            vstd::utf8::encode_utf8_decode_utf8(crlf_lines(file_urls(system@, self@.paths)));
        }
        encode_text(crlf_text(&urls).as_str())
    }

    /// Encode one of the advertised file clipboard formats. Files whose URLs read back
    /// are given back by [`FileTransfer::decode`]; all files whose pathnames say the same
    /// inside a URL are among them. The URLs are of printing ASCII characters. The format
    /// that is split on line feeds has no empty line, unless no file has a URL.
    pub fn encode(&self, mime: &str, system: PathSystem) -> (bytes: Option<Vec<u8>>)
        ensures
            bytes is Some <==> payload_text(system@, self@, mime@) is Some,
            bytes is Some ==> bytes->0@ == encode_utf8(payload_text(system@, self@, mime@)->0),
            typed_format(mime@) && can_travel(system@, self@) ==> gives_back(
                system@,
                decoded_files(system@, bytes->0@, mime@),
                self@,
                mime@,
            ),
            all_survive_in_urls(system@, self@) ==> can_travel(system@, self@),
            forall|i: int|
                0 <= i < file_urls(system@, self@.paths).len() ==> printing_ascii(
                    #[trigger] file_urls(system@, self@.paths)[i],
                ),
            mime@ == COPIED_FILES_MIME@ && file_urls(system@, self@.paths).len() > 0
                ==> lists_urls_by_line(
                decode_utf8(bytes->0@),
                self@.operation,
                file_urls(system@, self@.paths),
            ),
    {
        let urls = urls_of(self.paths.paths(), system);
        let bytes = payload_of_urls(&urls, self.operation, self.ownership, mime);
        proof {
            let windows = system@;
            lemma_file_urls_are_lines(windows, self@.paths);
            if payload_text(windows, self@, mime@) is Some {
                let text = payload_text(windows, self@, mime@)->0;
                vstd::utf8::encode_utf8_valid_utf8(text);
                vstd::utf8::encode_utf8_decode_utf8(text);
            }
            if all_survive_in_urls(windows, self@) {
                assert forall|i: int| 0 <= i < self@.paths.len() implies reads_back(
                    windows,
                    #[trigger] self@.paths[i],
                ) by {
                    assert(url_keeps(windows, self@.paths[i]));
                    assert(survives_in_url(windows, self@.paths[i]));
                }
            }
            if typed_format(mime@) && can_travel(windows, self@) {
                lemma_payload_gives_back(windows, self@, mime@);
            }
            if mime@ == COPIED_FILES_MIME@ && file_urls(windows, self@.paths).len() > 0 {
                lemma_copied_files_by_line(windows, self@);
            }
        }
        bytes
    }

    /// Decode only local file URLs in a typed native format.
    pub fn decode(bytes: &[u8], mime: &str, system: PathSystem) -> (files: Option<FileTransfer>)
        ensures
            transfer_view(files) == decoded_files(system@, bytes@, mime@),
    {
        let listing = match listing_of(bytes, mime) {
            Some(listing) => listing,
            None => {
                return None;
            },
        };
        let mut read: Vec<Option<PathBuf>> = Vec::new();
        let ghost wanted = local_files(system@, listing@.lines);
        let mut i: usize = 0;
        while i < listing.lines.len()
            invariant
                i <= listing.lines.len(),
                wanted == local_files(system@, listing@.lines),
                read.len() == i,
                forall|k: int| 0 <= k < i ==> optional_path(#[trigger] read@[k]) == wanted[k],
            decreases listing.lines.len() - i,
        {
            let path = local_file_path(listing.lines[i].as_str(), system);
            assert(listing@.lines[i as int] == listing.lines@[i as int]@);
            read.push(path);
            i = i + 1;
        }
        assert(optional_paths(read@) =~= wanted);
        files_of_paths(read, listing.operation, listing.ownership)
    }
}

/// The bytes of a pathname that may be missing.
pub open spec fn optional_path(path: Option<PathBuf>) -> Option<Seq<u8>> {
    match path {
        Some(path) => Some(path_bytes(path)),
        None => None,
    }
}

/// The bytes of pathnames that may be missing.
pub open spec fn optional_paths(paths: Seq<Option<PathBuf>>) -> Seq<Option<Seq<u8>>> {
    paths.map_values(|path: Option<PathBuf>| optional_path(path))
}

/// The transfer of the files that were read one per line, if there are any and each line
/// gave one.
pub fn files_of_paths(
    read: Vec<Option<PathBuf>>,
    operation: FileTransferOperation,
    ownership: u64,
) -> (files: Option<FileTransfer>)
    ensures
        transfer_view(files) == read_files(optional_paths(read@), operation, ownership),
{
    let ghost all = optional_paths(read@);
    let ghost items = read@;
    let mut found: Vec<PathBuf> = Vec::new();
    for path in it: read
        invariant
            it.seq() == items,
            all == optional_paths(items),
            found.len() == it.index(),
            forall|k: int|
                0 <= k < found.len() ==> all[k] == Some(path_bytes(#[trigger] found@[k])),
    {
        match path {
            Some(path) => {
                assert(all[it.index() as int] == optional_path(items[it.index() as int]));
                found.push(path);
            },
            None => {
                assert(all[it.index() as int] is None);
                return None;
            },
        }
    }
    if found.len() == 0 {
        return None;
    }
    proof {
        assert forall|k: int| 0 <= k < all.len() implies (#[trigger] all[k]) is Some by {
            assert(all[k] == Some(path_bytes(found@[k])));
        }
        assert(all_path_bytes(found@) =~= all.map_values(|path: Option<Seq<u8>>| path->0));
    }
    Some(FileTransfer { paths: ExternalPaths::new(found), operation, ownership })
}

/// What bytes list in a typed native format: the operation, the ownership token, and the
/// lines that name files.
pub fn listing_of(bytes: &[u8], mime: &str) -> (listing: Option<Listing>)
    ensures
        listing_view(listing) == if valid_utf8(bytes@) {
            listed_text(decode_utf8(bytes@), mime@)
        } else {
            None
        },
{
    let text = match decode_text(bytes) {
        Some(text) => text,
        None => {
            return None;
        },
    };
    let list = lines(text);
    let ghost all = texts(list@);
    if same_text(mime, URI_LIST_MIME) {
        assert(all.skip(0) =~= all);
        return Some(
            Listing {
                operation: FileTransferOperation::Copy,
                ownership: 0,
                lines: lines_naming_files(&list, 0),
            },
        );
    }
    let owned = same_text(mime, FILE_TRANSFER_MIME);
    if !owned && !same_text(mime, COPIED_FILES_MIME) {
        return None;
    }
    if list.len() == 0 {
        return None;
    }
    assert(all[0] == list@[0]@);
    let operation = match operation_of(list[0].as_str()) {
        Some(operation) => operation,
        None => {
            return None;
        },
    };
    if !owned {
        return Some(Listing { operation, ownership: 0, lines: lines_naming_files(&list, 1) });
    }
    if list.len() == 1 {
        return None;
    }
    assert(all[1] == list@[1]@);
    match parse_u64(list[1].as_str()) {
        Some(ownership) => Some(
            Listing { operation, ownership, lines: lines_naming_files(&list, 2) },
        ),
        None => None,
    }
}

fn word_of(operation: FileTransferOperation) -> (word: &'static str)
    ensures
        word@ == operation_word(operation),
{
    match operation {
        FileTransferOperation::Move => "cut",
        FileTransferOperation::Copy => "copy",
    }
}

fn operation_of(word: &str) -> (operation: Option<FileTransferOperation>)
    ensures
        operation == word_operation(word@),
{
    if same_text(word, "copy") {
        Some(FileTransferOperation::Copy)
    } else if same_text(word, "cut") {
        Some(FileTransferOperation::Move)
    } else {
        None
    }
}

fn line_names_file(line: &str) -> (names: bool)
    ensures
        names == names_file(line@),
{
    let chars = crate::chars::chars_of(line);
    chars.len() > 0 && chars[0] != '#'
}

/// The lines from `start` on that name files.
fn lines_naming_files(list: &Vec<String>, start: usize) -> (named: Vec<String>)
    requires
        start <= list.len(),
    ensures
        texts(named@) == file_lines(texts(list@).skip(start as int)),
{
    let ghost all = texts(list@).skip(start as int);
    let mut named: Vec<String> = Vec::new();
    let mut i: usize = start;
    proof {
        reveal(Seq::filter);
        assert(all.take(0) =~= Seq::empty());
        assert(texts(named@) =~= file_lines(all.take(0)));
    }
    while i < list.len()
        invariant
            start <= i <= list.len(),
            all == texts(list@).skip(start as int),
            texts(named@) == file_lines(all.take(i - start)),
        decreases list.len() - i,
    {
        let ghost before = named@;
        let ghost now = all.take(i - start + 1);
        let line = &list[i];
        proof {
            reveal(Seq::filter);
            assert(now.drop_last() =~= all.take(i - start));
            assert(now.last() == line@);
        }
        if line_names_file(line.as_str()) {
            let kept = line.clone();
            named.push(kept);
            assert(texts(named@) =~= texts(before).push(kept@));
        }
        assert(texts(named@) == file_lines(now));
        i = i + 1;
    }
    assert(all.take(i - start) =~= all);
    named
}

/// What is advertised are four formats and no other. The list of URLs carries neither the
/// operation nor the token, the list of the desktop carries the operation as its first word, the
/// application's own format carries both before the list of URLs, and the mark of the other
/// desktop carries the operation alone.
pub proof fn law_formats_carry_what_they_can(
    urls: Seq<Seq<char>>,
    other_urls: Seq<Seq<char>>,
    ownership: u64,
    other_ownership: u64,
    operation: FileTransferOperation,
    mime: Seq<char>,
)
    ensures
        url_payload(urls, operation, ownership, mime) is Some <==> mime == "text/uri-list"@ || mime
            == "x-special/gnome-copied-files"@ || mime == "application/x-gpui-file-transfer"@
            || mime == "application/x-kde-cutselection"@,
        url_payload(urls, FileTransferOperation::Move, ownership, "text/uri-list"@) == url_payload(
            urls,
            FileTransferOperation::Copy,
            other_ownership,
            "text/uri-list"@,
        ),
        url_payload(urls, operation, ownership, "x-special/gnome-copied-files"@) == url_payload(
            urls,
            operation,
            other_ownership,
            "x-special/gnome-copied-files"@,
        ),
        ({
            let list = url_payload(urls, operation, ownership, "text/uri-list"@)->0;
            let own = url_payload(
                urls,
                operation,
                ownership,
                "application/x-gpui-file-transfer"@,
            )->0;
            let word = if operation == FileTransferOperation::Move {
                "cut"@
            } else {
                "copy"@
            };
            own == word + seq!['\n'] + (decimal(ownership as nat) + seq!['\n'] + list)
        }),
        url_payload(
            urls,
            FileTransferOperation::Move,
            ownership,
            "application/x-kde-cutselection"@,
        ) == Some("1"@),
        url_payload(
            urls,
            FileTransferOperation::Copy,
            ownership,
            "application/x-kde-cutselection"@,
        ) == Some("0"@),
{
    lemma_formats_differ();
}

proof fn lemma_formats_differ()
    ensures
        "text/uri-list"@.len() == 13,
        "x-special/gnome-copied-files"@.len() == 28,
        "application/x-kde-cutselection"@.len() == 30,
        "application/x-gpui-file-transfer"@.len() == 32,
{
    reveal_strlit("text/uri-list");
    reveal_strlit("x-special/gnome-copied-files");
    reveal_strlit("application/x-kde-cutselection");
    reveal_strlit("application/x-gpui-file-transfer");
}

/// The list of the desktop is the operation and then the URLs, one on each line and with no line
/// feed behind the last; cutting is the word for a move.
pub proof fn law_desktop_lists_begin_with_the_operation(
    url: Seq<char>,
    urls: Seq<Seq<char>>,
    ownership: u64,
)
    requires
        urls.len() > 0,
    ensures
        ({
            let mime = "x-special/gnome-copied-files"@;
            let cut = url_payload(urls, FileTransferOperation::Move, ownership, mime)->0;
            let copied = url_payload(urls, FileTransferOperation::Copy, ownership, mime)->0;
            &&& cut.take(3) == "cut"@ && cut[3] == '\n'
            &&& copied.take(4) == "copy"@ && copied[4] == '\n'
            &&& cut.skip(4) == copied.skip(5)
            &&& url_payload(
                Seq::empty(),
                FileTransferOperation::Move,
                ownership,
                mime,
            )->0 == "cut"@ + seq!['\n']
            &&& url_payload(
                urls.push(url),
                FileTransferOperation::Move,
                ownership,
                mime,
            )->0 == cut + seq!['\n'] + url
            &&& url_payload(
                seq![url],
                FileTransferOperation::Move,
                ownership,
                mime,
            )->0 == "cut"@ + seq!['\n'] + url
        }),
{
    lemma_formats_differ();
    reveal_strlit("cut");
    reveal_strlit("copy");
    reveal_strlit("\n");
    assert("\n"@ =~= seq!['\n']);
    let mime = "x-special/gnome-copied-files"@;
    let cut = url_payload(urls, FileTransferOperation::Move, ownership, mime)->0;
    let copied = url_payload(urls, FileTransferOperation::Copy, ownership, mime)->0;
    assert(cut.take(3) =~= "cut"@);
    assert(copied.take(4) =~= "copy"@);
    assert(cut.skip(4) =~= copied.skip(5));
    assert(joined(Seq::<Seq<char>>::empty(), "\n"@) =~= Seq::empty());
    assert("cut"@ + seq!['\n'] + Seq::<char>::empty() =~= "cut"@ + seq!['\n']);
    assert(urls.push(url).drop_last() =~= urls);
    assert(url_payload(urls.push(url), FileTransferOperation::Move, ownership, mime)->0 =~= cut
        + seq!['\n'] + url);
}

/// Every line of a list of URLs ends in a carriage return and a line feed, the last one too, and
/// the lines come in order.
pub proof fn law_every_listed_line_is_ended(
    line: Seq<char>,
    first: Seq<Seq<char>>,
    second: Seq<Seq<char>>,
)
    ensures
        crlf_lines(seq![line]) == line + seq!['\r', '\n'],
        crlf_lines(first + second) == crlf_lines(first) + crlf_lines(second),
        crlf_lines(Seq::<Seq<char>>::empty()).len() == 0,
    decreases first.len(),
{
    assert(seq![line].skip(1) =~= Seq::empty());
    assert(crlf_lines(seq![line].skip(1)) =~= Seq::empty());
    assert(crlf_lines(seq![line]) =~= line + seq!['\r', '\n']);
    if first.len() == 0 {
        assert(first + second =~= second);
        assert(crlf_lines(first + second) =~= crlf_lines(first) + crlf_lines(second));
    } else {
        law_every_listed_line_is_ended(line, first.skip(1), second);
        assert((first + second).skip(1) =~= first.skip(1) + second);
        assert(crlf_lines(first + second) =~= crlf_lines(first) + crlf_lines(second));
    }
}

/// URLs are listed file by file, in order: each pathname gives its URL, or nothing where it has
/// none.
pub proof fn law_each_pathname_gives_its_url(
    windows: bool,
    path: Seq<u8>,
    first: Seq<Seq<u8>>,
    second: Seq<Seq<u8>>,
)
    ensures
        file_url(windows, path) is None ==> file_urls(windows, seq![path]).len() == 0,
        file_url(windows, path) matches Some(url) ==> file_urls(windows, seq![path]) == seq![url],
        file_urls(windows, first + second) == file_urls(windows, first) + file_urls(
            windows,
            second,
        ),
    decreases second.len(),
{
    assert(seq![path].drop_last() =~= Seq::empty());
    assert(file_urls(windows, seq![path].drop_last()) =~= Seq::empty());
    if file_url(windows, path) is Some {
        assert(file_urls(windows, seq![path]) =~= seq![file_url(windows, path)->0]);
    }
    let all = first + second;
    if second.len() == 0 {
        assert(all =~= first);
        assert(file_urls(windows, all) =~= file_urls(windows, first) + file_urls(windows, second));
    } else {
        law_each_pathname_gives_its_url(windows, path, first, second.drop_last());
        assert(all.drop_last() =~= first + second.drop_last());
        assert(all.last() == second.last());
        assert(file_urls(windows, all) =~= file_urls(windows, first) + file_urls(windows, second));
    }
}

/// The words for the operations stand for them, and no other word stands for one.
pub proof fn law_words_stand_for_operations(operation: FileTransferOperation, word: Seq<char>)
    ensures
        word_operation(operation_word(operation)) == Some(operation),
        word_operation(word) == Some(FileTransferOperation::Move) <==> word == "cut"@,
        word_operation(word) == Some(FileTransferOperation::Copy) <==> word == "copy"@,
{
    reveal_strlit("cut");
    reveal_strlit("copy");
    assert("cut"@.len() != "copy"@.len());
}

/// Files are read all or none: one line that gives no pathname spoils the rest, and so does it
/// that there is no line. Otherwise each line gives its pathname, in order, with the operation
/// and the token that were read before.
pub proof fn law_files_are_read_all_or_none(
    read: Seq<Option<Seq<u8>>>,
    operation: FileTransferOperation,
    ownership: u64,
    at: int,
)
    ensures
        read.len() == 0 ==> read_files(read, operation, ownership) is None,
        0 <= at < read.len() && read[at] is None ==> read_files(read, operation, ownership)
            is None,
        read.len() > 0 && read_files(read, operation, ownership) is None ==> exists|i: int|
            0 <= i < read.len() && (#[trigger] read[i]) is None,
        read_files(read, operation, ownership) matches Some(files) ==> {
            &&& files.operation == operation && files.ownership == ownership
            &&& files.paths.len() == read.len()
            &&& 0 <= at < read.len() ==> read[at] == Some(files.paths[at])
        },
{
    if read_files(read, operation, ownership) is Some && 0 <= at < read.len() {
        assert(read[at] is Some);
        let paths = read.map_values(|path: Option<Seq<u8>>| path->0);
        assert(paths[at] == read[at]->0);
    }
}

/// A line names a file unless it is empty or begins with a number sign. A line that names none
/// makes no difference to the lines that do, wherever it stands; the others stay as they are.
pub proof fn law_comments_make_no_difference(
    before: Seq<Seq<char>>,
    line: Seq<char>,
    behind: Seq<Seq<char>>,
)
    ensures
        line.len() == 0 || line[0] == '#' ==> file_lines(before + seq![line] + behind)
            == file_lines(before + behind),
        line.len() > 0 && line[0] != '#' ==> file_lines(before + seq![line] + behind)
            == file_lines(before) + seq![line] + file_lines(behind),
        file_lines(before + behind) == file_lines(before) + file_lines(behind),
{
    reveal(Seq::filter);
    let names = |line: Seq<char>| names_file(line);
    Seq::filter_distributes_over_add(before + seq![line], behind, names);
    Seq::filter_distributes_over_add(before, seq![line], names);
    Seq::filter_distributes_over_add(before, behind, names);
    assert(seq![line].drop_last() =~= Seq::empty());
    assert(seq![line].drop_last().filter(names) =~= Seq::empty());
    if names_file(line) {
        assert(seq![line].filter(names) =~= seq![line]);
    } else {
        assert(seq![line].filter(names) =~= Seq::empty());
        assert(file_lines(before) + Seq::<Seq<char>>::empty() =~= file_lines(before));
    }
}

/// What the formats say before they list files. A list of URLs is for copying, with no token. The
/// list of the desktop says the operation on its first line, and the application's own format the
/// token on its second; the files are those of the lines behind. A carriage return before a line
/// feed makes no difference.
pub proof fn law_listings_say_the_operation_first(
    word: Seq<char>,
    number: Seq<char>,
    rest: Seq<char>,
    end: Seq<char>,
)
    requires
        end == seq!['\n'] || end == seq!['\r', '\n'],
        !word.contains('\n') && !word.contains('\r'),
        !number.contains('\n') && !number.contains('\r'),
    ensures
        ({
            let urls = listed_text(rest, "text/uri-list"@);
            let desktop = listed_text(
                word + end + rest,
                "x-special/gnome-copied-files"@,
            );
            let own = listed_text(
                word + end + (number + end + rest),
                "application/x-gpui-file-transfer"@,
            );
            &&& urls is Some && urls->0.operation == FileTransferOperation::Copy
                && urls->0.ownership == 0
            &&& urls->0.lines == file_lines(lines_of(rest))
            &&& desktop is Some <==> word == "cut"@ || word == "copy"@
            &&& desktop is Some ==> {
                &&& desktop->0.operation == FileTransferOperation::Move <==> word == "cut"@
                &&& desktop->0.ownership == 0
                &&& desktop->0.lines == urls->0.lines
            }
            &&& own is Some <==> (word == "cut"@ || word == "copy"@) && parsed_u64(number) is Some
            &&& own is Some ==> {
                &&& own->0.operation == FileTransferOperation::Move <==> word == "cut"@
                &&& Some(own->0.ownership) == parsed_u64(number)
                &&& own->0.lines == urls->0.lines
            }
        }),
{
    lemma_formats_differ();
    reveal_strlit("cut");
    reveal_strlit("copy");
    assert("cut"@.len() != "copy"@.len());
    let rows = lines_of(rest);
    assert(word.len() > 0 ==> word.contains(word[word.len() - 1]));
    assert(number.len() > 0 ==> number.contains(number[number.len() - 1]));
    crate::chars::law_lines_end_at_line_feeds(word, rest);
    crate::chars::law_lines_end_at_line_feeds(number, rest);
    crate::chars::law_lines_end_at_line_feeds(word, number + end + rest);
    assert((seq![word] + rows).skip(1) =~= rows);
    assert((seq![word] + (seq![number] + rows)).skip(2) =~= rows);
    assert((seq![word] + rows)[0] == word);
    assert((seq![word] + (seq![number] + rows))[1] == number);
}

/// Nothing is listed in another format than these three. The two that begin with a word list
/// nothing where there is no line, and the one with a token nothing where there is only one line.
pub proof fn law_other_formats_list_nothing(text: Seq<char>, mime: Seq<char>)
    ensures
        !text.contains('\n') ==> listed_text(text, "application/x-gpui-file-transfer"@) is None,
        mime != "text/uri-list"@ && mime != "x-special/gnome-copied-files"@ && mime
            != "application/x-gpui-file-transfer"@ ==> listed_text(text, mime) is None,
        listed_text(Seq::empty(), "x-special/gnome-copied-files"@) is None,
        listed_text(Seq::empty(), "application/x-gpui-file-transfer"@) is None,
{
    lemma_formats_differ();
    if !text.contains('\n') {
        crate::chars::law_lines_end_at_line_feeds(text, text);
        if text.len() == 0 {
            assert(text =~= Seq::empty());
        }
    }
}

/// Text is decoded to the local files that its lines name, and to nothing at all where one of
/// them names none or where there is none; the operation and the token are those that it lists.
pub proof fn law_decoded_files_are_those_listed(
    windows: bool,
    text: Seq<char>,
    mime: Seq<char>,
    at: int,
)
    ensures
        listed_text(text, mime) is None ==> decoded_text(windows, text, mime) is None,
        listed_text(text, mime) matches Some(listing) ==> {
            &&& listing.lines.len() == 0 ==> decoded_text(windows, text, mime) is None
            &&& 0 <= at < listing.lines.len() && local_file(windows, listing.lines[at]) is None
                ==> decoded_text(windows, text, mime) is None
            &&& decoded_text(windows, text, mime) matches Some(files) ==> {
                &&& files.operation == listing.operation
                &&& files.ownership == listing.ownership
                &&& files.paths.len() == listing.lines.len()
                &&& 0 <= at < listing.lines.len() ==> local_file(windows, listing.lines[at])
                    == Some(files.paths[at])
            }
        },
{
    if listed_text(text, mime) is Some {
        let listing = listed_text(text, mime)->0;
        let read = local_files(windows, listing.lines);
        law_files_are_read_all_or_none(read, listing.operation, listing.ownership, at);
        if 0 <= at < listing.lines.len() {
            assert(read[at] == local_file(windows, listing.lines[at]));
        }
    }
}

/// Bytes that are not text are no files in any format, and bytes that are text are those that the
/// text describes.
pub proof fn law_only_text_is_decoded(
    windows: bool,
    bytes: Seq<u8>,
    text: Seq<char>,
    mime: Seq<char>,
)
    ensures
        !valid_utf8(bytes) ==> decoded_files(windows, bytes, mime) is None,
        decoded_files(windows, encode_utf8(text), mime) == decoded_text(windows, text, mime),
{
    vstd::utf8::encode_utf8_valid_utf8(text);
    vstd::utf8::encode_utf8_decode_utf8(text);
}

} // verus!
