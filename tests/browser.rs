use sftui::keys::{command_for, mode_of, Command, Key, Mode};
use sftui::browser::{
    cursor_down, cursor_up, filter_by_name, join_dir, other_pane, prepare_transfers, sort_listing,
    text_contains, toggle_selected, FileInfo, Pane, TransferDirection, TransferItem,
};

fn file(name: &str, path: &str, is_dir: bool) -> FileInfo {
    FileInfo { name: name.to_string(), path: path.to_string(), is_dir, size: 0, permissions: 0o644 }
}

#[test]
fn test_pane_toggle() {
    let pane = Pane::Local;
    assert_eq!(pane, Pane::Local);

    let pane = Pane::Remote;
    assert_eq!(pane, Pane::Remote);
}

#[test]
fn test_transfer_item_upload() {
    let item = TransferItem {
        source: "/source/file.txt".to_string(),
        destination: "/dest/file.txt".to_string(),
        direction: TransferDirection::Upload,
    };

    assert_eq!(item.source, "/source/file.txt");
    assert_eq!(item.destination, "/dest/file.txt");
    assert!(matches!(item.direction, TransferDirection::Upload));
}

#[test]
fn test_transfer_item_download() {
    let item = TransferItem {
        source: "/remote/file.txt".to_string(),
        destination: "/local/file.txt".to_string(),
        direction: TransferDirection::Download,
    };

    assert!(matches!(item.direction, TransferDirection::Download));
}

#[test]
fn test_transfer_direction_clone() {
    let upload = TransferDirection::Upload;
    let cloned = upload.clone();
    assert!(matches!(cloned, TransferDirection::Upload));
}

#[test]
fn test_file_info_creation() {
    let file_info = FileInfo {
        name: "test.txt".to_string(),
        path: "/home/user/test.txt".to_string(),
        is_dir: false,
        size: 1024,
        permissions: 0o644,
    };

    assert_eq!(file_info.name, "test.txt");
    assert_eq!(file_info.path, "/home/user/test.txt");
    assert!(!file_info.is_dir);
    assert_eq!(file_info.size, 1024);
    assert_eq!(file_info.permissions, 0o644);
}

#[test]
fn test_file_info_directory() {
    let dir_info = FileInfo {
        name: "documents".to_string(),
        path: "/home/user/documents".to_string(),
        is_dir: true,
        size: 4096,
        permissions: 0o755,
    };

    assert!(dir_info.is_dir);
    assert_eq!(dir_info.permissions, 0o755);
}

#[test]
fn test_file_info_clone() {
    let first = FileInfo {
        name: "file.rs".to_string(),
        path: "/project/src/file.rs".to_string(),
        is_dir: false,
        size: 2048,
        permissions: 0o644,
    };

    let cloned = first.clone();
    assert_eq!(first.name, cloned.name);
    assert_eq!(first.path, cloned.path);
    assert_eq!(first.is_dir, cloned.is_dir);
    assert_eq!(first.size, cloned.size);
    assert_eq!(first.permissions, cloned.permissions);
}

#[test]
fn panes_and_cursors() {
    assert_eq!(other_pane(Pane::Local), Pane::Remote);
    assert_eq!(other_pane(Pane::Remote), Pane::Local);
    assert_eq!(cursor_up(0), 0);
    assert_eq!(cursor_up(3), 2);
    assert_eq!(cursor_down(0, 0), 0);
    assert_eq!(cursor_down(0, 1), 0);
    assert_eq!(cursor_down(0, 2), 1);
    assert_eq!(cursor_down(1, 2), 1);
}

#[test]
fn selection_toggles() {
    let mut sel: Vec<usize> = Vec::new();
    toggle_selected(&mut sel, 3);
    toggle_selected(&mut sel, 1);
    toggle_selected(&mut sel, 5);
    assert_eq!(sel, vec![3, 1, 5]);
    toggle_selected(&mut sel, 1);
    assert_eq!(sel, vec![3, 5]);
    toggle_selected(&mut sel, 1);
    assert_eq!(sel, vec![3, 5, 1]);
}

#[test]
fn paths_join() {
    assert_eq!(join_dir("/", "a.txt"), "/a.txt");
    assert_eq!(join_dir("/home/u", "a.txt"), "/home/u/a.txt");
    assert_eq!(join_dir("/home/u/", "a.txt"), "/home/u/a.txt");
    assert_eq!(join_dir("", "a.txt"), "a.txt");
    assert_eq!(join_dir("/x", "/abs"), "/abs");
}

#[test]
fn transfers_follow_selection() {
    let local = vec![file("..", "/", true), file("a.txt", "/home/u/a.txt", false)];
    let remote = vec![file("r.bin", "/srv/r.bin", false)];
    let queue = prepare_transfers(&local, &vec![1, 7], "/home/u", &remote, &vec![0], "/srv");
    assert_eq!(queue.len(), 2);
    assert_eq!(queue[0].source, "/home/u/a.txt");
    assert_eq!(queue[0].destination, "/srv/a.txt");
    assert_eq!(queue[0].direction, TransferDirection::Upload);
    assert_eq!(queue[1].source, "/srv/r.bin");
    assert_eq!(queue[1].destination, "/home/u/r.bin");
    assert_eq!(queue[1].direction, TransferDirection::Download);
    assert!(prepare_transfers(&local, &vec![], "/", &remote, &vec![], "/").is_empty());
}

#[test]
fn filter_ignores_case() {
    let files = vec![file("Docs", "/Docs", true), file("readme.MD", "/readme.MD", false), file("x", "/x", false)];
    let found = filter_by_name(&files, "DOC");
    assert_eq!(found.len(), 1);
    assert_eq!(found[0].name, "Docs");
    let found = filter_by_name(&files, "md");
    assert_eq!(found.len(), 1);
    assert_eq!(found[0].name, "readme.MD");
    assert_eq!(filter_by_name(&files, "").len(), 3);
    assert!(text_contains("abc", "bc"));
    assert!(!text_contains("abc", "cb"));
    assert!(text_contains("abc", ""));
}

#[test]
fn listing_order() {
    let files = vec![
        file("b.txt", "/b.txt", false),
        file("zdir", "/zdir", true),
        file("..", "/", true),
        file("a.txt", "/a.txt", false),
        file("adir", "/adir", true),
    ];
    let sorted = sort_listing(files);
    let names: Vec<&str> = sorted.iter().map(|f| f.name.as_str()).collect();
    assert_eq!(names, vec!["..", "adir", "zdir", "a.txt", "b.txt"]);
}

#[test]
fn keys_map_to_commands() {
    assert_eq!(mode_of(true, true, true), Mode::ConnectionDialog);
    assert_eq!(mode_of(false, true, true), Mode::TransferDialog);
    assert_eq!(mode_of(false, false, true), Mode::Search);
    assert_eq!(mode_of(false, false, false), Mode::Browse);
    assert_eq!(command_for(Mode::Browse, Key::Char('Q')), Command::Quit);
    assert_eq!(command_for(Mode::Browse, Key::Tab), Command::SwitchPane);
    assert_eq!(command_for(Mode::Browse, Key::Char('j')), Command::CursorDown);
    assert_eq!(command_for(Mode::Browse, Key::Char('/')), Command::StartSearch);
    assert_eq!(command_for(Mode::Browse, Key::Char('x')), Command::Nothing);
    assert_eq!(command_for(Mode::Search, Key::Char('q')), Command::SearchType('q'));
    assert_eq!(command_for(Mode::Search, Key::Esc), Command::CancelSearch);
    assert_eq!(command_for(Mode::ConnectionDialog, Key::Enter), Command::ConnectToSelected);
    assert_eq!(command_for(Mode::ConnectionDialog, Key::Tab), Command::Nothing);
    assert_eq!(command_for(Mode::TransferDialog, Key::Esc), Command::CancelTransfers);
}
