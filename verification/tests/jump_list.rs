use native_shell::bindings::bindgen_args;
use native_shell::file_transfer::{FileTransfer, URI_LIST_MIME};
use native_shell::jump_list::{
    dock_menu_links, recent_folder_links, removed_workspace, title_units, workspace_link,
    DockMenuError, DockMenuItem, JumpList, MenuItem, ShellLink, RECENT_FOLDERS,
};
use native_shell::paths::{PathList, PathSystem};
use native_shell::utf16::{decode_utf16_lossy, encode_utf16};
use std::path::PathBuf;

fn here() -> PathSystem {
    PathSystem::of_this_machine()
}

fn workspace(folders: &[&str]) -> PathList {
    PathList::new(folders.iter().map(PathBuf::from).collect())
}

fn action(name: &str) -> MenuItem<u8> {
    MenuItem::Action {
        name: name.to_string(),
        action: 4,
    }
}

#[test]
fn only_actions_go_into_the_dock_menu() {
    let entry = DockMenuItem::new(action("Open")).unwrap_or_else(|_| panic!("an action"));
    assert_eq!(
        (entry.name.as_str(), entry.description.as_str(), entry.action),
        ("Open", "Open", 4)
    );
    let window = DockMenuItem::new(action("New Window")).unwrap_or_else(|_| panic!("an action"));
    assert_eq!(window.name, "New Window");
    assert_eq!(window.description, "Opens a new window");
    for item in [
        MenuItem::<u8>::Separator,
        MenuItem::Submenu {
            name: "More".to_string(),
        },
        MenuItem::SystemMenu {
            name: "Services".to_string(),
        },
    ] {
        let error = DockMenuItem::new(item).err().unwrap();
        assert_eq!(error, DockMenuError::NotAnAction);
        assert_eq!(
            error.message(),
            "Only `MenuItem::Action` is supported for dock menu on Windows."
        );
    }
    let list = JumpList::<u8>::new();
    assert!(list.dock_menus.is_empty() && list.recent_workspaces.is_empty());
}

fn parts(link: &ShellLink) -> (&str, &str, Option<&str>, &str) {
    (
        &link.argument,
        &link.description,
        link.icon.as_deref(),
        &link.display,
    )
}

#[test]
fn dock_links_carry_their_index() {
    let menus: Vec<(String, String)> = (0..11)
        .map(|i| (format!("name {i}"), format!("does {i}")))
        .collect();
    let links = dock_menu_links(&menus);
    assert_eq!(links.len(), 11);
    assert_eq!(
        parts(&links[0]),
        ("--dock-action 0", "does 0", None, "name 0")
    );
    assert_eq!(
        parts(&links[10]),
        ("--dock-action 10", "does 10", None, "name 10")
    );
}

#[test]
fn workspace_links_name_all_folders() {
    let link = workspace_link(&workspace(&["/home/me/one two", "/srv/", "/", "a/.."]), here());
    assert_eq!(
        parts(&link),
        (
            "\"/home/me/one two\" \"/srv/\" \"/\" \"a/..\"",
            "/home/me/one two\n/srv/\n/\na/..",
            Some("explorer.exe"),
            "one two, srv, /, a/.."
        )
    );
    assert_eq!(RECENT_FOLDERS, "Recent Folders");
}

#[test]
fn removed_workspaces_are_not_offered_again() {
    let entries = vec![
        workspace(&["/one"]),
        workspace(&["/two", "/three"]),
        workspace(&["/four"]),
    ];
    let removed = vec![workspace(&["/two/", "//three"]), workspace(&["/fo"])];
    let titles: Vec<String> = recent_folder_links(&entries, &removed, here())
        .into_iter()
        .map(|link| link.display)
        .collect();
    assert_eq!(titles, ["one", "four"]);
    assert_eq!(recent_folder_links(&entries, &vec![], here()).len(), 3);
    // The order of the folders counts.
    let turned = vec![workspace(&["/three", "/two"])];
    assert_eq!(recent_folder_links(&entries, &turned, here()).len(), 3);
}

#[test]
fn a_workspace_is_told_from_its_description() {
    let folders = workspace(&["/one", "/t\u{e9}\u{1f600}o"]);
    let link = workspace_link(&folders, here());
    let mut buffer = [0u16; 64];
    for (slot, unit) in buffer.iter_mut().zip(encode_utf16(&link.description)) {
        *slot = unit;
    }
    let removed = removed_workspace(&buffer);
    assert_eq!(removed, folders);
    assert!(recent_folder_links(&vec![folders], &vec![removed], here()).is_empty());
    // A buffer without a zero is read to its end.
    assert_eq!(removed_workspace(&[97, 10, 98]), workspace(&["a", "b"]));
    assert_eq!(removed_workspace(&[0, 97]), workspace(&[""]));
}

#[test]
fn titles_end_in_a_zero() {
    assert_eq!(title_units("a\u{1f600}"), [97, 0xd83d, 0xde00, 0]);
    assert_eq!(title_units(""), [0]);
}

#[test]
fn utf16_goes_both_ways() {
    for text in ["", "abc", "\u{e9}\u{ffff}", "\u{10000}\u{10ffff}x", "\u{d7ff}\u{e000}"] {
        let units = encode_utf16(text);
        assert_eq!(units, text.encode_utf16().collect::<Vec<_>>());
        assert_eq!(decode_utf16_lossy(&units, units.len()), text);
    }
    for units in [
        vec![0xd800],
        vec![0xdc00, 97],
        vec![0xd83d, 97],
        vec![0xd83d, 0xd83d, 0xde00],
        vec![97, 0xd83d],
        vec![0xde00, 0xd83d],
    ] {
        assert_eq!(
            decode_utf16_lossy(&units, units.len()),
            String::from_utf16_lossy(&units)
        );
    }
    assert_eq!(decode_utf16_lossy(&[97, 98, 99], 2), "ab");
}

#[test]
fn filters_follow_the_options() {
    let filters = "// comment\nWin32.One\r\n\n  Win32.Two  \n\t// another\n/ odd\n";
    assert_eq!(
        bindgen_args(filters, "out.rs", false),
        ["--out", "out.rs", "--filter", "Win32.One", "Win32.Two", "/ odd"]
    );
    assert_eq!(
        bindgen_args("", "x", true),
        ["--out", "x", "--sys", "--no-deps", "--filter"]
    );
}

#[test]
fn names_that_are_not_text_are_shown_with_replacements() {
    let files = FileTransfer::decode(b"file:///tmp/%FFx", URI_LIST_MIME, here()).unwrap();
    let folders = PathList::new(vec![files.paths.paths()[0].clone()]);
    assert_eq!(
        parts(&workspace_link(&folders, here())),
        (
            "\"/tmp/\u{fffd}x\"",
            "/tmp/\u{fffd}x",
            Some("explorer.exe"),
            "\u{fffd}x"
        )
    );
}
