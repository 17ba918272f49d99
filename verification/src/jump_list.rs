//! The jump list of the Windows taskbar: recent folders and dock actions.

use crate::chars::{decimal, decimal_string, join, joined, same_text, split, split_at, texts};
use crate::file_url::optional_text;
use crate::paths::{
    all_path_bytes, displayed_path_text, file_name, lossy_path_text, path_bytes, path_display,
    path_file_name, path_from_string, path_list, path_to_string_lossy, same_paths, PathList,
    PathSystem,
};
use crate::utf16::{decode_utf16_lossy, decoded_lossy, encode_utf16, encoded};
use std::path::PathBuf;
use vstd::prelude::*;
use vstd::utf8::{decode_utf8, encode_utf8, valid_utf8};

verus! {

// ---------------------------------------------------------------------------
// Dock menus

/// An entry of a menu.
pub enum MenuItem<Action> {
    /// A line between entries.
    Separator,
    /// A menu inside the menu.
    Submenu { name: String },
    /// A menu that the system fills.
    SystemMenu { name: String },
    /// Something to do.
    Action { name: String, action: Action },
}

/// Why an entry cannot be in the dock menu.
#[derive(Clone, Copy, Debug, PartialEq, Eq, Structural)]
pub enum DockMenuError {
    /// Only actions can.
    NotAnAction,
}

impl DockMenuError {
    /// The error in words.
    pub fn message(&self) -> (text: String)
        ensures
            text@ == "Only `MenuItem::Action` is supported for dock menu on Windows."@,
    {
        "Only `MenuItem::Action` is supported for dock menu on Windows.".to_owned()
    }
}

/// An entry of the dock menu.
pub struct DockMenuItem<Action> {
    pub name: String,
    pub description: String,
    pub action: Action,
}

/// What a dock menu entry of some name does, in words.
pub open spec fn dock_description(name: Seq<char>) -> Seq<char> {
    if name == "New Window"@ {
        "Opens a new window"@
    } else {
        name
    }
}

impl<Action> DockMenuItem<Action> {
    /// The dock menu entry of a menu entry, which must be an action.
    pub fn new(item: MenuItem<Action>) -> (entry: Result<DockMenuItem<Action>, DockMenuError>)
        ensures
            entry is Ok <==> item is Action,
            entry is Err ==> entry->Err_0 == DockMenuError::NotAnAction,
            entry is Ok ==> {
                &&& entry->Ok_0.name@ == item->Action_name@
                &&& entry->Ok_0.description@ == dock_description(item->Action_name@)
                &&& entry->Ok_0.action == item->action
            },
    {
        match item {
            MenuItem::Action { name, action } => {
                let description = if same_text(name.as_str(), "New Window") {
                    "Opens a new window".to_owned()
                } else {
                    name.clone()
                };
                Ok(DockMenuItem { name, description, action })
            },
            _ => Err(DockMenuError::NotAnAction),
        }
    }
}

/// What the taskbar offers of the application.
pub struct JumpList<Action> {
    pub dock_menus: Vec<DockMenuItem<Action>>,
    pub recent_workspaces: Vec<PathList>,
}

impl<Action> JumpList<Action> {
    /// A jump list that offers nothing.
    pub fn new() -> (list: JumpList<Action>)
        ensures
            list.dock_menus.len() == 0,
            list.recent_workspaces.len() == 0,
    {
        JumpList { dock_menus: Vec::new(), recent_workspaces: Vec::new() }
    }
}

// ---------------------------------------------------------------------------
// Links

/// What a link of the jump list is made of.
pub struct ShellLink {
    pub argument: String,
    pub description: String,
    pub icon: Option<String>,
    pub display: String,
}

/// A [`ShellLink`] as characters.
#[verifier::ext_equal]
pub struct ShellLinkView {
    pub argument: Seq<char>,
    pub description: Seq<char>,
    pub icon: Option<Seq<char>>,
    pub display: Seq<char>,
}

impl View for ShellLink {
    type V = ShellLinkView;

    open spec fn view(&self) -> ShellLinkView {
        ShellLinkView {
            argument: self.argument@,
            description: self.description@,
            icon: optional_text(self.icon),
            display: self.display@,
        }
    }
}

/// The name of the category of recent folders.
pub const RECENT_FOLDERS: &'static str = "Recent Folders";

/// The link of the dock menu entry of some index.
pub open spec fn dock_link(index: nat, name: Seq<char>, description: Seq<char>) -> ShellLinkView {
    ShellLinkView {
        argument: "--dock-action "@ + decimal(index),
        description,
        icon: None,
        display: name,
    }
}

/// The links of dock menu entries, given by their names and descriptions.
pub fn dock_menu_links(menus: &Vec<(String, String)>) -> (links: Vec<ShellLink>)
    ensures
        links.len() == menus.len(),
        forall|i: int|
            0 <= i < menus.len() ==> (#[trigger] links@[i])@ == dock_link(
                i as nat,
                menus@[i].0@,
                menus@[i].1@,
            ),
{
    let mut links: Vec<ShellLink> = Vec::new();
    let mut i: usize = 0;
    while i < menus.len()
        invariant
            i <= menus.len(),
            links.len() == i,
            forall|k: int|
                0 <= k < i ==> (#[trigger] links@[k])@ == dock_link(
                    k as nat,
                    menus@[k].0@,
                    menus@[k].1@,
                ),
        decreases menus.len() - i,
    {
        let mut argument = String::new();
        argument.append("--dock-action ");
        argument.append(decimal_string(i as u64).as_str());
        assert(argument@ =~= "--dock-action "@ + decimal(i as nat));
        let link = ShellLink {
            argument,
            description: menus[i].1.clone(),
            icon: None,
            display: menus[i].0.clone(),
        };
        links.push(link);
        i = i + 1;
    }
    links
}

/// A pathname as an argument, in quotation marks.
pub open spec fn quoted(windows: bool, path: Seq<u8>) -> Seq<char> {
    seq!['"'] + displayed_path_text(windows, path) + seq!['"']
}

/// What a folder is called: by its last name, or by its whole pathname.
pub open spec fn folder_title(windows: bool, path: Seq<u8>) -> Seq<char> {
    match file_name(windows, path) {
        Some(name) => lossy_path_text(windows, name),
        None => lossy_path_text(windows, path),
    }
}

/// The link of a workspace of some folders.
pub open spec fn folder_link(windows: bool, paths: Seq<Seq<u8>>) -> ShellLinkView {
    ShellLinkView {
        argument: joined(paths.map_values(|path: Seq<u8>| quoted(windows, path)), " "@),
        description: joined(
            paths.map_values(|path: Seq<u8>| lossy_path_text(windows, path)),
            "\n"@,
        ),
        icon: Some("explorer.exe"@),
        display: joined(paths.map_values(|path: Seq<u8>| folder_title(windows, path)), ", "@),
    }
}

/// The pathnames that a description lists, one on each line.
pub open spec fn described_paths(description: Seq<char>) -> Seq<Seq<u8>> {
    split_at(description, '\n').map_values(|line: Seq<char>| encode_utf8(line))
}

/// Whether a pathname is text of one line.
pub open spec fn one_line_path(path: Seq<u8>) -> bool {
    valid_utf8(path) && !decode_utf8(path).contains('\n')
}

/// Whether a workspace can be told from its description: it has folders, and their
/// pathnames are text of one line each.
pub open spec fn describable(paths: Seq<Seq<u8>>) -> bool {
    paths.len() > 0 && forall|i: int| 0 <= i < paths.len() ==> one_line_path(#[trigger] paths[i])
}

fn folder_texts(paths: &[PathBuf], system: PathSystem) -> (lists: (
    Vec<String>,
    Vec<String>,
    Vec<String>,
))
    ensures
        texts(lists.0@) == all_path_bytes(paths@).map_values(
            |path: Seq<u8>| quoted(system@, path),
        ),
        texts(lists.1@) == all_path_bytes(paths@).map_values(
            |path: Seq<u8>| lossy_path_text(system@, path),
        ),
        texts(lists.2@) == all_path_bytes(paths@).map_values(
            |path: Seq<u8>| folder_title(system@, path),
        ),
        forall|i: int|
            0 <= i < paths.len() && valid_utf8(#[trigger] all_path_bytes(paths@)[i])
                ==> lossy_path_text(system@, all_path_bytes(paths@)[i]) == decode_utf8(
                all_path_bytes(paths@)[i],
            ),
{
    let mut arguments: Vec<String> = Vec::new();
    let mut lines: Vec<String> = Vec::new();
    let mut titles: Vec<String> = Vec::new();
    let ghost all = all_path_bytes(paths@);
    let mut i: usize = 0;
    while i < paths.len()
        invariant
            i <= paths.len(),
            all == all_path_bytes(paths@),
            arguments.len() == i,
            lines.len() == i,
            titles.len() == i,
            forall|k: int| 0 <= k < i ==> (#[trigger] arguments@[k])@ == quoted(system@, all[k]),
            forall|k: int|
                0 <= k < i ==> (#[trigger] lines@[k])@ == lossy_path_text(system@, all[k]),
            forall|k: int|
                0 <= k < i ==> (#[trigger] titles@[k])@ == folder_title(system@, all[k]),
            forall|k: int|
                0 <= k < i && valid_utf8(#[trigger] all[k]) ==> lossy_path_text(system@, all[k])
                    == decode_utf8(all[k]),
        decreases paths.len() - i,
    {
        let path = &paths[i];
        assert(all[i as int] == path_bytes(*path));
        let mut argument = String::new();
        argument.push('"');
        argument.append(path_display(system, path).as_str());
        argument.push('"');
        assert(argument@ =~= quoted(system@, all[i as int]));
        arguments.push(argument);
        let line = path_to_string_lossy(system, path);
        let title = match path_file_name(system, path) {
            Some(name) => path_to_string_lossy(system, &name),
            None => path_to_string_lossy(system, path),
        };
        lines.push(line);
        titles.push(title);
        i = i + 1;
    }
    assert(texts(arguments@) =~= all.map_values(|path: Seq<u8>| quoted(system@, path)));
    assert(texts(lines@) =~= all.map_values(|path: Seq<u8>| lossy_path_text(system@, path)));
    assert(texts(titles@) =~= all.map_values(|path: Seq<u8>| folder_title(system@, path)));
    (arguments, lines, titles)
}

proof fn lemma_described_paths(windows: bool, paths: Seq<Seq<u8>>)
    requires
        describable(paths),
        forall|i: int|
            0 <= i < paths.len() ==> lossy_path_text(windows, #[trigger] paths[i]) == decode_utf8(
                paths[i],
            ),
    ensures
        described_paths(folder_link(windows, paths).description) == paths,
{
    let lines = paths.map_values(|path: Seq<u8>| lossy_path_text(windows, path));
    reveal_strlit("\n");
    assert("\n"@ =~= seq!['\n']);
    assert forall|i: int| 0 <= i < lines.len() implies !(#[trigger] lines[i]).contains('\n') by {
        assert(one_line_path(paths[i]));
        assert(lossy_path_text(windows, paths[i]) == decode_utf8(paths[i]));
    }
    crate::chars::lemma_split_joined(lines, '\n');
    let read = described_paths(folder_link(windows, paths).description);
    assert forall|i: int| 0 <= i < paths.len() implies read[i] == paths[i] by {
        assert(one_line_path(paths[i]));
        assert(read[i] == encode_utf8(lines[i]));
        vstd::utf8::decode_utf8_encode_utf8(paths[i]);
    }
    assert(read =~= paths);
}

/// The link of a workspace. A workspace that can be told from its description is what
/// the description lists.
pub fn workspace_link(folders: &PathList, system: PathSystem) -> (link: ShellLink)
    ensures
        link@ == folder_link(system@, folders@),
        describable(folders@) ==> described_paths(link@.description) == folders@,
{
    let lists = folder_texts(folders.as_slice(), system);
    let link = ShellLink {
        argument: join(&lists.0, " "),
        description: join(&lists.1, "\n"),
        icon: Some("explorer.exe".to_owned()),
        display: join(&lists.2, ", "),
    };
    proof {
        if describable(folders@) {
            assert forall|i: int| 0 <= i < folders@.len() implies lossy_path_text(
                system@,
                #[trigger] folders@[i],
            ) == decode_utf8(folders@[i]) by {
                assert(one_line_path(folders@[i]));
            }
            lemma_described_paths(system@, folders@);
        }
    }
    link
}

/// Whether a workspace is among some others.
pub open spec fn is_among(
    windows: bool,
    folders: Seq<Seq<u8>>,
    others: Seq<PathList>,
) -> bool {
    exists|i: int| 0 <= i < others.len() && same_paths(windows, #[trigger] others[i]@, folders)
}

fn among(folders: &PathList, others: &Vec<PathList>, system: PathSystem) -> (found: bool)
    ensures
        found == is_among(system@, folders@, others@),
{
    let mut i: usize = 0;
    while i < others.len()
        invariant
            i <= others.len(),
            forall|k: int| 0 <= k < i ==> !same_paths(
                    system@,
                    #[trigger] others@[k]@,
                    folders@,
                ),
        decreases others.len() - i,
    {
        if others[i].same(folders, system) {
            return true;
        }
        i = i + 1;
    }
    false
}

/// The links of the workspaces that the user has not removed, in order.
pub open spec fn recent_links(
    windows: bool,
    entries: Seq<PathList>,
    removed: Seq<PathList>,
) -> Seq<ShellLinkView>
    decreases entries.len(),
{
    if entries.len() == 0 {
        Seq::empty()
    } else {
        let before = recent_links(windows, entries.drop_last(), removed);
        if is_among(windows, entries.last()@, removed) {
            before
        } else {
            before.push(folder_link(windows, entries.last()@))
        }
    }
}

/// The views of some links.
pub open spec fn link_views(links: Seq<ShellLink>) -> Seq<ShellLinkView> {
    links.map_values(|link: ShellLink| link@)
}

/// The links of the recent workspaces that the user has not removed from the list.
pub fn recent_folder_links(
    entries: &Vec<PathList>,
    removed: &Vec<PathList>,
    system: PathSystem,
) -> (links: Vec<ShellLink>)
    ensures
        link_views(links@) == recent_links(system@, entries@, removed@),
{
    let mut links: Vec<ShellLink> = Vec::new();
    let mut i: usize = 0;
    assert(entries@.take(0) =~= Seq::empty());
    assert(link_views(links@) =~= Seq::empty());
    while i < entries.len()
        invariant
            i <= entries.len(),
            link_views(links@) == recent_links(
                system@,
                entries@.take(i as int),
                removed@,
            ),
        decreases entries.len() - i,
    {
        let ghost before = links@;
        assert(entries@.take(i + 1).drop_last() =~= entries@.take(i as int));
        if !among(&entries[i], removed, system) {
            let link = workspace_link(&entries[i], system);
            links.push(link);
            assert(link_views(links@) =~= link_views(before).push(link@));
        }
        i = i + 1;
    }
    assert(entries@.take(i as int) =~= entries@);
    links
}

// ---------------------------------------------------------------------------
// What the user removed

/// The units before the first zero.
pub open spec fn until_zero(buffer: Seq<u16>) -> Seq<u16>
    decreases buffer.len(),
{
    if buffer.len() == 0 || buffer[0] == 0 {
        Seq::empty()
    } else {
        seq![buffer[0]] + until_zero(buffer.skip(1))
    }
}

proof fn lemma_until_zero(buffer: Seq<u16>, end: int)
    requires
        0 <= end <= buffer.len(),
        forall|i: int| 0 <= i < end ==> buffer[i] != 0,
        end < buffer.len() ==> buffer[end] == 0,
    ensures
        until_zero(buffer) == buffer.take(end),
    decreases buffer.len(),
{
    if end > 0 {
        lemma_until_zero(buffer.skip(1), end - 1);
        assert(buffer.take(end) =~= seq![buffer[0]] + buffer.skip(1).take(end - 1));
    } else {
        assert(buffer.take(end) =~= Seq::empty());
    }
}

/// The workspace that a link described, from the buffer that its description was read
/// into.
pub fn removed_workspace(buffer: &[u16]) -> (folders: PathList)
    ensures
        folders@ == described_paths(decoded_lossy(until_zero(buffer@))),
{
    let mut end: usize = 0;
    while end < buffer.len() && buffer[end] != 0
        invariant
            end <= buffer.len(),
            forall|i: int| 0 <= i < end ==> buffer@[i] != 0,
        decreases buffer.len() - end,
    {
        end = end + 1;
    }
    proof {
        lemma_until_zero(buffer@, end as int);
    }
    let description = decode_utf16_lossy(buffer, end);
    let lines = split(description.as_str(), '\n');
    let ghost all = texts(lines@);
    let mut paths: Vec<PathBuf> = Vec::new();
    let mut i: usize = 0;
    while i < lines.len()
        invariant
            i <= lines.len(),
            all == texts(lines@),
            paths.len() == i,
            forall|k: int| 0 <= k < i ==> path_bytes(#[trigger] paths@[k]) == encode_utf8(all[k]),
        decreases lines.len() - i,
    {
        assert(all[i as int] == lines@[i as int]@);
        paths.push(path_from_string(lines[i].clone()));
        i = i + 1;
    }
    assert(all_path_bytes(paths@) =~= all.map_values(|line: Seq<char>| encode_utf8(line)));
    PathList::new(paths)
}

/// A title as the shell takes it: its units, then a zero.
pub fn title_units(display: &str) -> (units: Vec<u16>)
    ensures
        units@ == encoded(display@).push(0),
{
    let mut units = encode_utf16(display);
    units.push(0);
    units
}

/// A description that was handed to the shell is read back from any buffer that holds
/// it with a zero behind it.
pub proof fn law_description_reads_back(description: Seq<char>, buffer: Seq<u16>)
    requires
        !description.contains('\0'),
        buffer.len() > encoded(description).len(),
        buffer.take(encoded(description).len() as int) == encoded(description),
        buffer[encoded(description).len() as int] == 0,
    ensures
        decoded_lossy(until_zero(buffer)) == description,
{
    let units = encoded(description);
    crate::utf16::law_utf16_round_trip(description);
    assert forall|i: int| 0 <= i < units.len() implies buffer[i] != 0 by {
        assert(units[i] == buffer.take(units.len() as int)[i]);
    }
    lemma_until_zero(buffer, units.len() as int);
}

/// A workspace that can be told from its description is the one that is read back from
/// a buffer that holds the description with a zero behind it.
pub proof fn law_described_workspace_is_recognised(
    windows: bool,
    folders: Seq<Seq<u8>>,
    description: Seq<char>,
    buffer: Seq<u16>,
)
    requires
        described_paths(description) == folders,
        !description.contains('\0'),
        buffer.len() > encoded(description).len(),
        buffer.take(encoded(description).len() as int) == encoded(description),
        buffer[encoded(description).len() as int] == 0,
    ensures
        same_paths(windows, described_paths(decoded_lossy(until_zero(buffer))), folders),
{
    law_description_reads_back(description, buffer);
}

/// A workspace that the user removed is not offered again, and the others are offered
/// in their order.
pub proof fn law_removed_workspaces_are_not_offered(
    windows: bool,
    entries: Seq<PathList>,
    removed: Seq<PathList>,
    at: int,
)
    requires
        0 <= at < entries.len(),
    ensures
        is_among(windows, entries[at]@, removed) ==> recent_links(windows, entries, removed)
            == recent_links(windows, entries.remove(at), removed),
        !is_among(windows, entries[at]@, removed) ==> recent_links(
            windows,
            entries,
            removed,
        ).contains(folder_link(windows, entries[at]@)),
    decreases entries.len(),
{
    let before = entries.drop_last();
    if at == entries.len() - 1 {
        assert(entries.remove(at) =~= before);
        if !is_among(windows, entries[at]@, removed) {
            let links = recent_links(windows, entries, removed);
            assert(links[links.len() - 1] == folder_link(windows, entries[at]@));
        }
    } else {
        law_removed_workspaces_are_not_offered(windows, before, removed, at);
        assert(entries.remove(at).drop_last() =~= before.remove(at));
        assert(entries.remove(at).last() == entries.last());
        if !is_among(windows, entries[at]@, removed) {
            let link = folder_link(windows, entries[at]@);
            let i = recent_links(windows, before, removed).index_of(link);
            assert(recent_links(windows, entries, removed)[i] == link);
        }
    }
}

/// A dock menu entry is described by its name, but for the one that opens a window.
pub proof fn law_only_new_windows_are_described_in_other_words(name: Seq<char>)
    ensures
        name != "New Window"@ ==> dock_description(name) == name,
        dock_description("New Window"@) == "Opens a new window"@,
{
}

/// The link of a dock menu entry shows its name and its description, and its argument ends in
/// the entry's number: links of different entries have different arguments.
pub proof fn law_dock_links_tell_their_entry(
    index: nat,
    other: nat,
    name: Seq<char>,
    description: Seq<char>,
)
    ensures
        ({
            let link = dock_link(index, name, description);
            &&& link.display == name && link.description == description && link.icon is None
            &&& link.argument.take("--dock-action "@.len() as int) == "--dock-action "@
            &&& crate::chars::digits_value(link.argument.skip("--dock-action "@.len() as int))
                == index
            &&& dock_link(other, name, description).argument == link.argument ==> other == index
        }),
{
    let flag = "--dock-action "@;
    crate::chars::lemma_decimal_value(index);
    crate::chars::lemma_decimal_value(other);
    let link = dock_link(index, name, description);
    let second = dock_link(other, name, description);
    assert(link.argument.take(flag.len() as int) =~= flag);
    assert(link.argument.skip(flag.len() as int) =~= decimal(index));
    assert(second.argument.skip(flag.len() as int) =~= decimal(other));
}

/// A folder is called by the last name of its pathname, or by the whole pathname where it has no
/// last name.
pub proof fn law_folders_are_called_by_their_last_name(windows: bool, path: Seq<u8>)
    ensures
        file_name(windows, path) matches Some(name) ==> folder_title(windows, path)
            == lossy_path_text(windows, name),
        file_name(windows, path) is None ==> folder_title(windows, path) == lossy_path_text(
            windows,
            path,
        ),
{
}

/// An argument is the pathname as it is shown, between two quotation marks.
pub proof fn law_arguments_are_quoted(windows: bool, path: Seq<u8>)
    ensures
        quoted(windows, path).len() == displayed_path_text(windows, path).len() + 2,
        quoted(windows, path)[0] == '"' && quoted(windows, path).last() == '"',
        quoted(windows, path).skip(1).drop_last() == displayed_path_text(windows, path),
{
    assert(quoted(windows, path).skip(1).drop_last() =~= displayed_path_text(windows, path));
}

/// The link of one folder has the folder as its argument, its pathname as its description and
/// its name as its title. Each further folder of a workspace comes behind the others: behind a
/// space in the argument, on a line of its own in the description, and behind a comma in the
/// title. All links have the icon of folders.
pub proof fn law_links_list_the_folders_in_order(
    windows: bool,
    paths: Seq<Seq<u8>>,
    path: Seq<u8>,
)
    ensures
        ({
            let one = folder_link(windows, seq![path]);
            &&& one.argument == quoted(windows, path)
            &&& one.description == lossy_path_text(windows, path)
            &&& one.display == folder_title(windows, path)
            &&& one.icon == Some("explorer.exe"@)
        }),
        paths.len() > 0 ==> ({
            let link = folder_link(windows, paths);
            let more = folder_link(windows, paths.push(path));
            &&& more.argument == link.argument + " "@ + quoted(windows, path)
            &&& more.description == link.description + "\n"@ + lossy_path_text(windows, path)
            &&& more.display == link.display + ", "@ + folder_title(windows, path)
            &&& more.icon == Some("explorer.exe"@)
        }),
{
    let argument = |path: Seq<u8>| quoted(windows, path);
    let line = |path: Seq<u8>| lossy_path_text(windows, path);
    let title = |path: Seq<u8>| folder_title(windows, path);
    let more = paths.push(path);
    assert(more.map_values(argument).drop_last() =~= paths.map_values(argument));
    assert(more.map_values(line).drop_last() =~= paths.map_values(line));
    assert(more.map_values(title).drop_last() =~= paths.map_values(title));
}

/// The units before the first zero hold no zero, are those at the beginning of the buffer, and
/// are all of it or are followed by a zero.
pub proof fn law_descriptions_end_at_the_first_zero(buffer: Seq<u16>)
    ensures
        until_zero(buffer).len() <= buffer.len(),
        buffer.take(until_zero(buffer).len() as int) == until_zero(buffer),
        !until_zero(buffer).contains(0),
        until_zero(buffer).len() < buffer.len() ==> buffer[until_zero(buffer).len() as int] == 0,
    decreases buffer.len(),
{
    let units = until_zero(buffer);
    if buffer.len() > 0 && buffer[0] != 0 {
        let rest = buffer.skip(1);
        law_descriptions_end_at_the_first_zero(rest);
        let fewer = until_zero(rest);
        assert(units.skip(1) =~= fewer);
        assert forall|i: int| 0 <= i < units.len() implies #[trigger] units[i] != 0 && units[i]
            == buffer[i] by {
            if i > 0 {
                assert(units[i] == fewer[i - 1]);
                assert(fewer.contains(fewer[i - 1]));
                assert(fewer[i - 1] == rest.take(fewer.len() as int)[i - 1]);
            }
        }
    }
    assert(buffer.take(units.len() as int) =~= units);
}

/// A description lists one pathname for each of its lines, in order.
pub proof fn law_each_line_describes_a_pathname(lines: Seq<Seq<char>>, at: int)
    requires
        0 <= at < lines.len(),
        forall|i: int| 0 <= i < lines.len() ==> !(#[trigger] lines[i]).contains('\n'),
    ensures
        described_paths(joined(lines, seq!['\n'])).len() == lines.len(),
        described_paths(joined(lines, seq!['\n']))[at] == encode_utf8(lines[at]),
{
    crate::chars::lemma_split_joined(lines, '\n');
}

/// Workspaces are offered one by one and in their order: each that the user has not removed has
/// its link, and each that the user has removed has none. With nothing removed all have one.
pub proof fn law_workspaces_are_offered_in_order(
    windows: bool,
    first: Seq<PathList>,
    second: Seq<PathList>,
    entry: PathList,
    removed: Seq<PathList>,
)
    ensures
        recent_links(windows, first + second, removed) == recent_links(windows, first, removed)
            + recent_links(windows, second, removed),
        (exists|i: int|
            0 <= i < removed.len() && same_paths(windows, (#[trigger] removed[i])@, entry@))
            ==> recent_links(windows, seq![entry], removed).len() == 0,
        (forall|i: int|
            0 <= i < removed.len() ==> !same_paths(windows, (#[trigger] removed[i])@, entry@))
            ==> recent_links(windows, seq![entry], removed) == seq![folder_link(windows, entry@)],
    decreases second.len(),
{
    let all = first + second;
    assert(seq![entry].drop_last() =~= Seq::empty());
    assert(recent_links(windows, seq![entry].drop_last(), removed) =~= Seq::empty());
    if exists|i: int|
        0 <= i < removed.len() && same_paths(windows, (#[trigger] removed[i])@, entry@) {
        let i = choose|i: int|
            0 <= i < removed.len() && same_paths(windows, (#[trigger] removed[i])@, entry@);
        assert(same_paths(windows, removed[i]@, entry@));
        assert(is_among(windows, entry@, removed));
    } else {
        assert forall|i: int| 0 <= i < removed.len() implies !same_paths(
            windows,
            #[trigger] removed[i]@,
            entry@,
        ) by {
            assert(removed[i] == removed[i]);
        }
        assert(!is_among(windows, entry@, removed));
        assert(recent_links(windows, seq![entry], removed) =~= seq![folder_link(windows, entry@)]);
    }
    if second.len() == 0 {
        assert(all =~= first);
        assert(recent_links(windows, all, removed) =~= recent_links(windows, first, removed)
            + recent_links(windows, second, removed));
    } else {
        law_workspaces_are_offered_in_order(windows, first, second.drop_last(), entry, removed);
        assert(all.drop_last() =~= first + second.drop_last());
        assert(all.last() == second.last());
        assert(recent_links(windows, all, removed) =~= recent_links(windows, first, removed)
            + recent_links(windows, second, removed));
    }
}

} // verus!
