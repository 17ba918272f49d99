//! Native pathnames, as the bytes that the system holds them in, on Unix and on
//! Windows.

use smallvec::SmallVec;
use std::path::PathBuf;
use vstd::prelude::*;
use vstd::utf8::{decode_utf8, encode_utf8, valid_utf8};

verus! {

/// `std::path::PathBuf`, a pathname of the operating system.
#[verifier::external_type_specification]
#[verifier::external_body]
pub struct ExPathBuf(PathBuf);

/// `std::path::is_separator` says whether a character separates names on this machine:
/// a slash does on every machine, a backslash on some, and no other character does.
#[verifier::external_body]
fn separates_names(c: char) -> (separates: bool)
    ensures
        c == '/' ==> separates,
        c != '/' && c != '\\' ==> !separates,
{
    std::path::is_separator(c)
}

/// The system whose pathnames a program handles, Unix or Windows. There is no other way
/// to come by one than to ask for that of the machine on which the program runs, so
/// whoever holds one holds that one.
#[derive(Clone, Copy, Debug, PartialEq, Eq, Structural)]
pub struct PathSystem {
    windows: bool,
}

impl View for PathSystem {
    type V = bool;

    /// Whether it is Windows.
    closed spec fn view(&self) -> bool {
        self.windows
    }
}

impl PathSystem {
    /// The system of this machine: on Windows a backslash separates names.
    pub fn of_this_machine() -> (system: PathSystem) {
        PathSystem { windows: separates_names('\\') }
    }

    /// Whether it is Windows.
    pub fn is_windows(self) -> (windows: bool)
        ensures
            windows == self@,
    {
        self.windows
    }
}

/// The bytes that a pathname holds: on Unix its own, on Windows those in which std
/// encodes it.
pub uninterp spec fn path_bytes(path: PathBuf) -> Seq<u8>;

/// `PathBuf::clone` gives a pathname of the same bytes.
pub assume_specification[ <PathBuf as Clone>::clone ](path: &PathBuf) -> (copy: PathBuf)
    ensures
        path_bytes(copy) == path_bytes(*path),
;

/// Whether a pathname begins at the root of a Unix system, with a slash.
pub open spec fn rooted(bytes: Seq<u8>) -> bool {
    bytes.len() > 0 && bytes[0] == 47
}

/// The pieces of a pathname between its slashes, empty ones among them.
pub open spec fn path_pieces(bytes: Seq<u8>) -> Seq<Seq<u8>>
    decreases bytes.len(),
{
    if bytes.len() == 0 {
        seq![Seq::empty()]
    } else if bytes.last() == 47 {
        path_pieces(bytes.drop_last()).push(Seq::empty())
    } else {
        let before = path_pieces(bytes.drop_last());
        before.drop_last().push(before.last().push(bytes.last()))
    }
}

/// A pathname of Windows with a slash for each backslash: either separates names there.
pub open spec fn with_slashes(bytes: Seq<u8>) -> Seq<u8> {
    bytes.map_values(
        |byte: u8|
            if byte == 92 {
                47u8
            } else {
                byte
            },
    )
}

/// The piece `.`.
pub open spec fn dot_piece() -> Seq<u8> {
    seq![46u8]
}

/// The piece `..`.
pub open spec fn dot_dot_piece() -> Seq<u8> {
    seq![46u8, 46u8]
}

/// The names along a pathname of Unix, as `Path::components` walks them: repeated and
/// trailing slashes count for nothing, and neither does `.`, unless a relative
/// pathname begins with it.
pub open spec fn path_names(bytes: Seq<u8>) -> Seq<Seq<u8>> {
    let pieces = path_pieces(bytes);
    let names = pieces.filter(|piece: Seq<u8>| piece.len() > 0 && piece != dot_piece());
    if pieces[0] == dot_piece() {
        seq![dot_piece()] + names
    } else {
        names
    }
}

/// Whether two pathnames of Unix are the same to `Path::eq`, which compares them name by
/// name.
pub open spec fn same_path(a: Seq<u8>, b: Seq<u8>) -> bool {
    rooted(a) == rooted(b) && path_names(a) == path_names(b)
}

/// The bytes of each pathname of a list.
pub open spec fn all_path_bytes(list: Seq<PathBuf>) -> Seq<Seq<u8>> {
    list.map_values(|path: PathBuf| path_bytes(path))
}

/// Whether `Path::is_absolute` holds on Windows of a pathname of these bytes.
pub uninterp spec fn absolute_on_windows(bytes: Seq<u8>) -> bool;

/// Whether a pathname is absolute.
pub open spec fn absolute_path(windows: bool, bytes: Seq<u8>) -> bool {
    if windows {
        absolute_on_windows(bytes)
    } else {
        rooted(bytes)
    }
}

/// `Path::is_absolute`: on Unix a pathname is absolute if it begins at the root. What it
/// takes on Windows is not said here.
#[verifier::external_body]
pub(crate) fn path_is_absolute(system: PathSystem, path: &PathBuf) -> (absolute: bool)
    ensures
        system@ ==> absolute == absolute_on_windows(path_bytes(*path)),
        !system@ ==> absolute == rooted(path_bytes(*path)),
{
    path.is_absolute()
}

/// Whether `PathBuf::eq` holds on Windows of two pathnames of these bytes.
pub uninterp spec fn equal_on_windows(a: Seq<u8>, b: Seq<u8>) -> bool;

/// Whether two pathnames are equal.
pub open spec fn equal_paths(windows: bool, a: Seq<u8>, b: Seq<u8>) -> bool {
    if windows {
        a == b || equal_on_windows(a, b)
    } else {
        same_path(a, b)
    }
}

/// `PathBuf::eq` compares two pathnames by their beginning and the names along them, so
/// that the same bytes are equal. Which other bytes are equal on Windows is not said
/// here.
#[verifier::external_body]
pub(crate) fn path_equals(system: PathSystem, a: &PathBuf, b: &PathBuf) -> (same: bool)
    ensures
        system@ ==> same == (path_bytes(*a) == path_bytes(*b) || equal_on_windows(
            path_bytes(*a),
            path_bytes(*b),
        )),
        !system@ ==> same == same_path(path_bytes(*a), path_bytes(*b)),
{
    a == b
}

/// Whether two lists of pathnames are equal, one by one.
pub open spec fn same_paths(windows: bool, a: Seq<Seq<u8>>, b: Seq<Seq<u8>>) -> bool {
    a.len() == b.len() && forall|i: int|
        0 <= i < a.len() ==> equal_paths(windows, #[trigger] a[i], b[i])
}

/// `PathBuf::from` a string gives the pathname whose bytes are the string's.
#[verifier::external_body]
pub(crate) fn path_from_string(text: String) -> (path: PathBuf)
    ensures
        path_bytes(path) == encode_utf8(text@),
{
    PathBuf::from(text)
}

/// What `Path::to_string_lossy` writes, on Windows or on Unix, for a pathname of these
/// bytes.
pub uninterp spec fn lossy_path_text(windows: bool, bytes: Seq<u8>) -> Seq<char>;

/// `Path::to_string_lossy` gives a pathname as text. Where the bytes are UTF-8
/// it is the text that they encode; what stands for other bytes, which the two systems
/// replace in different ways, is not said.
#[verifier::external_body]
pub(crate) fn path_to_string_lossy(system: PathSystem, path: &PathBuf) -> (text: String)
    ensures
        text@ == lossy_path_text(system@, path_bytes(*path)),
        valid_utf8(path_bytes(*path)) ==> text@ == decode_utf8(path_bytes(*path)),
{
    path.to_string_lossy().into_owned()
}

/// What `Path::display` prints, on Windows or on Unix, for a pathname of these bytes.
pub uninterp spec fn displayed_path_text(windows: bool, bytes: Seq<u8>) -> Seq<char>;

/// `Path::display` prints a pathname. Where the bytes are UTF-8 it is the text
/// that they encode; what stands for other bytes, which the two systems replace in
/// different ways, is not said.
#[verifier::external_body]
pub(crate) fn path_display(system: PathSystem, path: &PathBuf) -> (text: String)
    ensures
        text@ == displayed_path_text(system@, path_bytes(*path)),
        valid_utf8(path_bytes(*path)) ==> text@ == decode_utf8(path_bytes(*path)),
{
    path.display().to_string()
}

/// The last name of a pathname of Unix, unless it is `..` or there is none.
pub open spec fn last_name(bytes: Seq<u8>) -> Option<Seq<u8>> {
    let names = path_names(bytes);
    if names.len() == 0 || names.last() == dot_dot_piece() || names.last() == dot_piece() {
        None
    } else {
        Some(names.last())
    }
}

/// The name that `Path::file_name` gives on Windows for a pathname of these bytes.
pub uninterp spec fn file_name_on_windows(bytes: Seq<u8>) -> Option<Seq<u8>>;

/// The name of the file that a pathname ends in, if it ends in one.
pub open spec fn file_name(windows: bool, bytes: Seq<u8>) -> Option<Seq<u8>> {
    if windows {
        file_name_on_windows(bytes)
    } else {
        last_name(bytes)
    }
}

/// `Path::file_name` gives the last name of a pathname, unless the pathname ends
/// in `..` or has no name. Which name is the last one on Windows is not said here.
#[verifier::external_body]
pub(crate) fn path_file_name(system: PathSystem, path: &PathBuf) -> (name: Option<PathBuf>)
    ensures
        system@ ==> (name is Some <==> file_name_on_windows(path_bytes(*path)) is Some),
        system@ && name is Some ==> path_bytes(name->0) == file_name_on_windows(
            path_bytes(*path),
        )->0,
        !system@ ==> (name is Some <==> last_name(path_bytes(*path)) is Some),
        !system@ && name is Some ==> path_bytes(name->0) == last_name(path_bytes(*path))->0,
{
    path.file_name().map(PathBuf::from)
}

/// A list of pathnames, held in a `smallvec::SmallVec` that keeps up to two of
/// them in place.
#[verifier::external_body]
#[derive(Debug, PartialEq, Eq)]
pub struct PathList {
    items: SmallVec<[PathBuf; 2]>,
}

/// The pathnames of a list, in order.
pub uninterp spec fn path_list(list: PathList) -> Seq<PathBuf>;

/// `SmallVec::as_slice` gives the items in order.
#[verifier::external_body]
fn path_slice(list: &PathList) -> (items: &[PathBuf])
    ensures
        items@ == path_list(*list),
{
    list.items.as_slice()
}

/// `SmallVec::from_vec` keeps the items of the vector in order.
#[verifier::external_body]
fn path_list_from(items: Vec<PathBuf>) -> (list: PathList)
    ensures
        path_list(list) == items@,
{
    PathList { items: SmallVec::from_vec(items) }
}

impl View for PathList {
    type V = Seq<Seq<u8>>;

    open spec fn view(&self) -> Seq<Seq<u8>> {
        all_path_bytes(path_list(*self))
    }
}

impl PathList {
    /// The list of these pathnames.
    pub fn new(items: Vec<PathBuf>) -> (list: PathList)
        ensures
            path_list(list) == items@,
            list@ == all_path_bytes(items@),
    {
        path_list_from(items)
    }

    /// The pathnames, in order.
    pub fn as_slice(&self) -> (items: &[PathBuf])
        ensures
            items@ == path_list(*self),
            all_path_bytes(items@) == self@,
    {
        path_slice(self)
    }

    /// Whether two lists are equal, one by one.
    pub fn same(&self, other: &PathList, system: PathSystem) -> (same: bool)
        ensures
            same == same_paths(system@, self@, other@),
    {
        paths_equal(path_slice(self), path_slice(other), system)
    }
}

impl Clone for PathList {
    fn clone(&self) -> (copy: PathList)
        ensures
            copy@ == self@,
    {
        path_list_from(clone_paths(path_slice(self)))
    }
}

/// Copies of some pathnames.
pub fn clone_paths(items: &[PathBuf]) -> (copy: Vec<PathBuf>)
    ensures
        all_path_bytes(copy@) == all_path_bytes(items@),
{
    let mut copy: Vec<PathBuf> = Vec::new();
    let mut i: usize = 0;
    while i < items.len()
        invariant
            i <= items.len(),
            copy.len() == i,
            forall|k: int| 0 <= k < i ==> path_bytes(#[trigger] copy@[k]) == path_bytes(items@[k]),
        decreases items.len() - i,
    {
        copy.push(items[i].clone());
        i = i + 1;
    }
    assert(all_path_bytes(copy@) =~= all_path_bytes(items@));
    copy
}

/// Whether two lists of pathnames are equal, one by one.
pub fn paths_equal(a: &[PathBuf], b: &[PathBuf], system: PathSystem) -> (same: bool)
    ensures
        same == same_paths(system@, all_path_bytes(a@), all_path_bytes(b@)),
{
    if a.len() != b.len() {
        return false;
    }
    let ghost left = all_path_bytes(a@);
    let ghost right = all_path_bytes(b@);
    let mut i: usize = 0;
    while i < a.len()
        invariant
            i <= a.len(),
            a.len() == b.len(),
            left == all_path_bytes(a@),
            right == all_path_bytes(b@),
            forall|k: int| 0 <= k < i ==> equal_paths(system@, #[trigger] left[k], right[k]),
        decreases a.len() - i,
    {
        if !path_equals(system, &a[i], &b[i]) {
            assert(!equal_paths(system@, left[i as int], right[i as int]));
            return false;
        }
        i = i + 1;
    }
    true
}

/// Two lists of pathnames are the same exactly where they are equally long and equal in every
/// place: a list is the same as itself, and stays so only together with a further equal pathname.
pub proof fn law_lists_are_compared_place_by_place(
    windows: bool,
    a: Seq<Seq<u8>>,
    b: Seq<Seq<u8>>,
    left: Seq<u8>,
    right: Seq<u8>,
)
    ensures
        same_paths(windows, a, a),
        a.len() != b.len() ==> !same_paths(windows, a, b),
        a.len() == b.len() ==> (same_paths(windows, a.push(left), b.push(right)) <==> same_paths(
            windows,
            a,
            b,
        ) && equal_paths(windows, left, right)),
{
    if a.len() == b.len() {
        let longer = a.push(left);
        let other = b.push(right);
        let n = a.len() as int;
        if same_paths(windows, longer, other) {
            assert(equal_paths(windows, longer[n], other[n]));
            assert forall|i: int| 0 <= i < n implies equal_paths(
                windows,
                #[trigger] a[i],
                b[i],
            ) by {
                assert(equal_paths(windows, longer[i], other[i]));
            }
        }
        if same_paths(windows, a, b) && equal_paths(windows, left, right) {
            assert forall|i: int| 0 <= i < longer.len() implies equal_paths(
                windows,
                #[trigger] longer[i],
                other[i],
            ) by {
                if i < n {
                    assert(equal_paths(windows, a[i], b[i]));
                }
            }
        }
    }
}

/// Equality of pathnames is one: every pathname equals itself, on Unix an equal one equals it in
/// turn, and what equals an equal one equals it.
pub proof fn law_pathnames_equal_themselves(windows: bool, a: Seq<u8>, b: Seq<u8>, c: Seq<u8>)
    ensures
        equal_paths(windows, a, a),
        equal_paths(false, a, b) ==> equal_paths(false, b, a),
        equal_paths(false, a, b) && equal_paths(false, b, c) ==> equal_paths(false, a, c),
{
}

/// A pathname is cut at its slashes and nowhere else: what holds no slash is one piece, and a
/// slash between two parts parts their pieces.
pub proof fn law_slashes_part_the_pieces(first: Seq<u8>, second: Seq<u8>)
    ensures
        path_pieces(first).len() > 0,
        !first.contains(47) ==> path_pieces(first) == seq![first],
        path_pieces(first + seq![47u8] + second) == path_pieces(first) + path_pieces(second),
    decreases first.len() + second.len(),
{
    if first.len() > 0 {
        law_slashes_part_the_pieces(first.drop_last(), Seq::empty());
        if !first.contains(47) {
            let before = first.drop_last();
            assert(first[first.len() - 1] != 47) by {
                if first[first.len() - 1] == 47 {
                    assert(first.contains(47));
                }
            }
            assert(!before.contains(47)) by {
                if before.contains(47) {
                    let i = before.index_of(47);
                    assert(first[i] == 47);
                }
            }
            assert(before.push(first.last()) =~= first);
            assert(path_pieces(first) =~= seq![first]);
        }
    } else {
        assert(first =~= Seq::empty());
    }
    let whole = first + seq![47u8] + second;
    if second.len() == 0 {
        assert(whole.drop_last() =~= first);
        assert(path_pieces(second) =~= seq![Seq::<u8>::empty()]);
        assert(path_pieces(whole) =~= path_pieces(first) + path_pieces(second));
    } else {
        let fewer = second.drop_last();
        law_slashes_part_the_pieces(first, fewer);
        law_slashes_part_the_pieces(fewer, Seq::empty());
        assert(whole.drop_last() =~= first + seq![47u8] + fewer);
        assert(whole.last() == second.last());
        assert(path_pieces(whole) =~= path_pieces(first) + path_pieces(second));
    }
}

/// A pathname of Unix is absolute where it begins with a slash, and none is without one. Either
/// separator of Windows counts as a slash, and no other byte does.
pub proof fn law_absolute_pathnames_begin_with_a_slash(bytes: Seq<u8>, byte: u8)
    ensures
        absolute_path(false, seq![47u8] + bytes),
        byte != 47 ==> !absolute_path(false, seq![byte] + bytes),
        !absolute_path(false, Seq::<u8>::empty()),
        with_slashes(bytes).len() == bytes.len(),
        forall|i: int|
            0 <= i < bytes.len() ==> ((#[trigger] with_slashes(bytes)[i]) == 47 <==> bytes[i] == 47
                || bytes[i] == 92),
        forall|i: int|
            0 <= i < bytes.len() && bytes[i] != 92 ==> (#[trigger] with_slashes(bytes)[i])
                == bytes[i],
{
}

} // verus!
