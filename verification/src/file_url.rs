//! `file:` URLs, by which native transfers name files.

use crate::paths::{
    absolute_path, dot_dot_piece, equal_paths, path_bytes, path_is_absolute, path_names,
    path_pieces, rooted, with_slashes, PathSystem,
};
use std::path::PathBuf;
use vstd::prelude::*;
use vstd::utf8::valid_utf8;

verus! {

/// The parts of a URL that decide whether it names a local file.
pub struct UrlParts {
    pub scheme: String,
    pub host: Option<String>,
    pub path: String,
    pub query: Option<String>,
    pub fragment: Option<String>,
}

/// [`UrlParts`] as characters.
pub struct UrlPartsView {
    pub scheme: Seq<char>,
    pub host: Option<Seq<char>>,
    pub path: Seq<char>,
    pub query: Option<Seq<char>>,
    pub fragment: Option<Seq<char>>,
}

/// The characters of a text that may be missing.
pub open spec fn optional_text(text: Option<String>) -> Option<Seq<char>> {
    match text {
        Some(text) => Some(text@),
        None => None,
    }
}

impl View for UrlParts {
    type V = UrlPartsView;

    open spec fn view(&self) -> UrlPartsView {
        UrlPartsView {
            scheme: self.scheme@,
            host: optional_text(self.host),
            path: self.path@,
            query: optional_text(self.query),
            fragment: optional_text(self.fragment),
        }
    }
}

/// The parts of the URL that `url::Url::parse` reads in `text`, if it is one.
pub uninterp spec fn parsed_url(text: Seq<char>) -> Option<UrlPartsView>;

/// `url::Url::parse` reads a URL. The scheme, the host, the path, the query and the
/// fragment are those that the accessors of `url::Url` give.
#[verifier::external_body]
pub(crate) fn parse_url(text: &str) -> (parts: Option<UrlParts>)
    ensures
        parts is Some <==> parsed_url(text@) is Some,
        parts is Some ==> parts->0@ == parsed_url(text@)->0,
{
    let url = url::Url::parse(text).ok()?;
    Some(
        UrlParts {
            scheme: url.scheme().to_string(),
            host: url.host_str().map(String::from),
            path: url.path().to_string(),
            query: url.query().map(String::from),
            fragment: url.fragment().map(String::from),
        },
    )
}

/// Whether a URL is of no other host.
pub open spec fn of_this_host(parts: UrlPartsView) -> bool {
    parts.host is Some ==> parts.host->0.len() == 0 || parts.host->0 == "localhost"@
}

/// Whether a URL names a file on this host, and nothing but a file.
pub open spec fn names_local_file(parts: UrlPartsView) -> bool {
    &&& parts.scheme == "file"@
    &&& of_this_host(parts)
    &&& parts.query is None
    &&& parts.fragment is None
}

/// Whether the path of a URL is a Windows drive and nothing more, with its colon as it
/// is or escaped. Such a path has no root, and no file has it.
pub open spec fn bare_drive(path: Seq<char>) -> bool {
    &&& path.len() > 2
    &&& path[0] == '/'
    &&& 'a' <= path[1] <= 'z' || 'A' <= path[1] <= 'Z'
    &&& path.skip(2) == ":"@ || path.skip(2) == "%3a"@ || path.skip(2) == "%3A"@
}

/// Whether the path of a URL can be turned into a pathname.
pub open spec fn has_rooted_path(windows: bool, parts: UrlPartsView) -> bool {
    !(windows && bare_drive(parts.path))
}

/// The bytes of the pathname that `url::Url::to_file_path` gives, on Windows or on Unix,
/// for the URL in `text`.
pub uninterp spec fn url_file_path(windows: bool, text: Seq<char>) -> Option<Seq<u8>>;

/// `url::Url::to_file_path` turns the path of a URL into a pathname, if it can. A bare
/// drive is left out: debug builds of the crate panic on it on Windows.
#[verifier::external_body]
pub(crate) fn url_to_file_path(system: PathSystem, text: &str) -> (path: Option<PathBuf>)
    requires
        parsed_url(text@) is Some,
        names_local_file(parsed_url(text@)->0),
        has_rooted_path(system@, parsed_url(text@)->0),
    ensures
        path is Some <==> url_file_path(system@, text@) is Some,
        path is Some ==> path_bytes(path->0) == url_file_path(system@, text@)->0,
{
    url::Url::parse(text).ok()?.to_file_path().ok()
}

/// The URL that `url::Url::from_file_path` gives, on Windows or on Unix, for a pathname
/// of these bytes.
pub uninterp spec fn file_url(windows: bool, bytes: Seq<u8>) -> Option<Seq<char>>;

/// Whether a pathname of Windows is text that begins at the root of a drive, with no `..`
/// in it.
pub open spec fn drive_path(bytes: Seq<u8>) -> bool {
    &&& valid_utf8(bytes)
    &&& bytes.len() > 2
    &&& 65 <= bytes[0] <= 90 || 97 <= bytes[0] <= 122
    &&& bytes[1] == 58
    &&& bytes[2] == 47 || bytes[2] == 92
    &&& !path_pieces(with_slashes(bytes)).contains(dot_dot_piece())
}

/// Whether a pathname says the same inside a URL: it begins at a root, on Windows at that
/// of a drive, and no `..` is in it, which a URL resolves. On Windows it has to be text.
pub open spec fn survives_in_url(windows: bool, bytes: Seq<u8>) -> bool {
    if windows {
        drive_path(bytes)
    } else {
        rooted(bytes) && !path_names(bytes).contains(dot_dot_piece())
    }
}

/// The pathname that a URL stands for, if it names a local file by an absolute
/// pathname.
pub open spec fn local_file(windows: bool, text: Seq<char>) -> Option<Seq<u8>> {
    if parsed_url(text) is Some && names_local_file(parsed_url(text)->0) && has_rooted_path(
        windows,
        parsed_url(text)->0,
    ) && url_file_path(windows, text) is Some && absolute_path(
        windows,
        url_file_path(windows, text)->0,
    ) {
        url_file_path(windows, text)
    } else {
        None
    }
}

/// Whether the URL of a pathname reads back: it is of this host, and its path turns into
/// an equal pathname.
pub open spec fn reads_back(windows: bool, bytes: Seq<u8>) -> bool {
    &&& file_url(windows, bytes) matches Some(url)
    &&& parsed_url(url) matches Some(parts)
    &&& of_this_host(parts)
    &&& has_rooted_path(windows, parts)
    &&& url_file_path(windows, url) matches Some(back)
    &&& equal_paths(windows, back, bytes)
}

/// Whether all characters of a text are printing ASCII characters.
pub open spec fn printing_ascii(text: Seq<char>) -> bool {
    forall|i: int| 0 <= i < text.len() ==> '!' <= #[trigger] text[i] <= '~'
}

/// `url::Url::from_file_path` gives a URL for an absolute pathname, of whichever system.
/// The URL begins with the scheme, every byte outside printing ASCII is escaped in it,
/// and so are the marks that begin a query and a fragment: where it reads back at all,
/// it names nothing but a local file, by an absolute pathname. A pathname that says the
/// same inside a URL has one, which reads back. On Unix every absolute pathname has a
/// URL; which others have one on Windows (of shares, or in the verbatim form) is not said
/// here.
#[verifier::external_body]
pub(crate) fn url_from_file_path(system: PathSystem, path: &PathBuf) -> (url: Option<String>)
    ensures
        url is Some <==> file_url(system@, path_bytes(*path)) is Some,
        url is Some ==> url->0@ == file_url(system@, path_bytes(*path))->0,
        url is Some ==> absolute_path(system@, path_bytes(*path)),
        url is Some ==> url->0@.len() > 0 && url->0@[0] == 'f' && printing_ascii(url->0@),
        url is Some && reads_back(system@, path_bytes(*path)) ==> local_file(system@, url->0@)
            == url_file_path(system@, url->0@),
        !system@ ==> (url is Some <==> rooted(path_bytes(*path))),
        survives_in_url(system@, path_bytes(*path)) ==> url is Some,
        url is Some && survives_in_url(system@, path_bytes(*path)) ==> reads_back(
            system@,
            path_bytes(*path),
        ),
{
    url::Url::from_file_path(path).ok().map(String::from)
}

/// The pathname that the URL in `text` stands for, if it names a local file by an
/// absolute pathname.
pub fn local_file_path(text: &str, system: PathSystem) -> (path: Option<PathBuf>)
    ensures
        path is Some <==> local_file(system@, text@) is Some,
        path is Some ==> path_bytes(path->0) == local_file(system@, text@)->0,
{
    let parts = match parse_url(text) {
        Some(parts) => parts,
        None => {
            return None;
        },
    };
    if !parts.names_local_file() || (system.is_windows() && parts.is_bare_drive()) {
        return None;
    }
    match url_to_file_path(system, text) {
        Some(path) => {
            if path_is_absolute(system, &path) {
                Some(path)
            } else {
                None
            }
        },
        None => None,
    }
}

impl UrlParts {
    /// Whether the path is a Windows drive and nothing more.
    pub fn is_bare_drive(&self) -> (bare: bool)
        ensures
            bare == bare_drive(self.path@),
    {
        let chars = crate::chars::chars_of(self.path.as_str());
        if chars.len() <= 2 || chars[0] != '/' {
            return false;
        }
        let letter = chars[1];
        if !(('a' <= letter && letter <= 'z') || ('A' <= letter && letter <= 'Z')) {
            return false;
        }
        let rest = crate::chars::string_of(&chars, 2, chars.len());
        assert(rest@ =~= self.path@.skip(2));
        let rest = rest.as_str();
        crate::chars::same_text(rest, ":") || crate::chars::same_text(rest, "%3a")
            || crate::chars::same_text(rest, "%3A")
    }

    /// Whether the URL names a file on this host, and nothing but a file.
    pub fn names_local_file(&self) -> (local: bool)
        ensures
            local == names_local_file(self@),
    {
        if !crate::chars::same_text(self.scheme.as_str(), "file") {
            return false;
        }
        if self.query.is_some() || self.fragment.is_some() {
            return false;
        }
        match &self.host {
            Some(host) => host.as_str().is_empty() || crate::chars::same_text(
                host.as_str(),
                "localhost",
            ),
            None => true,
        }
    }
}

/// A URL names a local file by its scheme, for no host or this one, and only where it names
/// nothing but a file: a query or a fragment asks for something else.
pub proof fn law_local_files_have_no_other_host_and_no_query(
    parts: UrlPartsView,
    text: Seq<char>,
)
    ensures
        parts.scheme != "file"@ ==> !names_local_file(parts),
        parts.query == Some(text) ==> !names_local_file(parts),
        parts.fragment == Some(text) ==> !names_local_file(parts),
        parts.host == Some(text) && text.len() > 0 && text != "localhost"@ ==> !names_local_file(
            parts,
        ),
        parts.scheme == "file"@ && parts.query is None && parts.fragment is None && (
        parts.host is None || parts.host == Some(Seq::<char>::empty()) || parts.host == Some(
            "localhost"@,
        )) ==> names_local_file(parts),
{
    if parts.host == Some(Seq::<char>::empty()) {
        assert(parts.host->0.len() == 0);
    }
}

/// A bare drive is a slash, a letter and a colon, which may be escaped, with nothing behind. It
/// has no root on Windows, and is a name like any other elsewhere.
pub proof fn law_bare_drives_have_no_root(
    parts: UrlPartsView,
    letter: char,
    behind: Seq<char>,
    windows: bool,
)
    requires
        'a' <= letter <= 'z' || 'A' <= letter <= 'Z',
    ensures
        bare_drive(seq!['/', letter] + ":"@),
        bare_drive(seq!['/', letter] + "%3a"@),
        bare_drive(seq!['/', letter] + "%3A"@),
        !bare_drive(seq!['/', letter] + ":"@ + seq!['/'] + behind),
        !bare_drive(seq!['/'] + behind + seq!['/', letter] + ":"@),
        bare_drive(parts.path) ==> ({
            let start = seq!['/', parts.path[1]];
            &&& 'a' <= parts.path[1] <= 'z' || 'A' <= parts.path[1] <= 'Z'
            &&& parts.path == start + ":"@ || parts.path == start + "%3a"@ || parts.path == start
                + "%3A"@
        }),
        has_rooted_path(false, parts),
        has_rooted_path(true, parts) <==> !bare_drive(parts.path),
{
    reveal_strlit(":");
    reveal_strlit("%3a");
    reveal_strlit("%3A");
    assert((seq!['/', letter] + ":"@).skip(2) =~= ":"@);
    assert((seq!['/', letter] + "%3a"@).skip(2) =~= "%3a"@);
    assert((seq!['/', letter] + "%3A"@).skip(2) =~= "%3A"@);
    let longer = seq!['/', letter] + ":"@ + seq!['/'] + behind;
    assert(longer.skip(2)[0] == ':' && longer.skip(2).len() > 1);
    let deeper = seq!['/'] + behind + seq!['/', letter] + ":"@;
    if bare_drive(deeper) {
        let rest = deeper.skip(2);
        assert(deeper.last() == ':' && rest.last() == ':');
        assert(rest.len() == 1 || rest.len() == 3);
        assert(rest =~= ":"@ ==> deeper.len() == 3);
        assert(deeper.len() == behind.len() + 4);
        if rest.len() == 3 {
            assert(rest.last() == 'a' || rest.last() == 'A');
        }
    }
    if bare_drive(parts.path) {
        let start = seq!['/', parts.path[1]];
        assert(parts.path =~= start + parts.path.skip(2));
    }
}

/// What a URL stands for is the pathname that its path turns into, exactly where it is a URL of a
/// local file, its path has a root, and the pathname is absolute.
pub proof fn law_local_files_are_named_by_absolute_pathnames(
    windows: bool,
    text: Seq<char>,
    parts: UrlPartsView,
    path: Seq<u8>,
)
    ensures
        parsed_url(text) is None ==> local_file(windows, text) is None,
        parsed_url(text) == Some(parts) && !names_local_file(parts) ==> local_file(windows, text)
            is None,
        windows && parsed_url(text) == Some(parts) && bare_drive(parts.path) ==> local_file(
            windows,
            text,
        ) is None,
        local_file(windows, text) == Some(path) ==> absolute_path(windows, path) && url_file_path(
            windows,
            text,
        ) == Some(path),
        parsed_url(text) == Some(parts) && names_local_file(parts) && !(windows && bare_drive(
            parts.path,
        )) && url_file_path(windows, text) == Some(path) && absolute_path(windows, path)
            ==> local_file(windows, text) == Some(path),
{
}

} // verus!
