use terminal_audio_player::browser::{
    is_audio_file, sort_paths, DirListing, DiskEntry, DiskSnapshot, EntryKind, FileBrowser,
};

fn file(path: &str) -> DiskEntry {
    DiskEntry { path: path.to_string(), is_dir: false, is_file: true }
}

fn dir(path: &str) -> DiskEntry {
    DiskEntry { path: path.to_string(), is_dir: true, is_file: false }
}

fn listing(path: &str, children: Vec<DiskEntry>) -> DirListing {
    DirListing { dir: path.to_string(), children: Ok(children) }
}

/// `/r` holding the folder `Album` (with `track2.ogg`) and `track1.mp3`.
fn album_disk() -> DiskSnapshot {
    DiskSnapshot {
        listings: vec![
            listing("/r", vec![file("/r/track1.mp3"), dir("/r/Album")]),
            listing("/r/Album", vec![file("/r/Album/track2.ogg")]),
        ],
        tree: vec![dir("/r"), dir("/r/Album"), file("/r/Album/track2.ogg"), file("/r/track1.mp3")],
    }
}

#[test]
fn browser_lists_directories_before_audio_files() {
    let disk = DiskSnapshot {
        listings: vec![listing("/r", vec![file("/r/track1.mp3"), file("/r/notes.txt"), dir("/r/Album")])],
        tree: vec![dir("/r"), dir("/r/Album"), file("/r/track1.mp3"), file("/r/notes.txt")],
    };

    let browser = FileBrowser::new(String::from("/r"), &disk).unwrap();
    let names = browser
        .entries()
        .iter()
        .map(|entry| (&entry.name, entry.kind, entry.depth))
        .collect::<Vec<_>>();

    assert_eq!(names.len(), 2);
    assert_eq!(names[0], (&"Album".to_string(), EntryKind::Directory, 0));
    assert_eq!(names[1], (&"track1.mp3".to_string(), EntryKind::File, 0));
}

#[test]
fn expanding_directory_reveals_nested_audio_files() {
    let disk = album_disk();
    let mut browser = FileBrowser::new(String::from("/r"), &disk).unwrap();
    assert!(browser.toggle_selected_directory());
    browser.refresh(&disk).unwrap();

    let entries = browser.entries();
    assert_eq!(entries.len(), 3);
    assert_eq!(entries[0].name, "Album");
    assert_eq!(entries[0].kind, EntryKind::Directory);
    assert!(entries[0].expanded);
    assert_eq!(entries[1].name, "track2.ogg");
    assert_eq!(entries[1].kind, EntryKind::File);
    assert_eq!(entries[1].depth, 1);
    assert_eq!(entries[2].name, "track1.mp3");
}

#[test]
fn audio_playlist_includes_nested_files_even_when_directory_is_collapsed() {
    let browser = FileBrowser::new(String::from("/r"), &album_disk()).unwrap();
    let playlist = browser.audio_playlist();

    assert_eq!(playlist.len(), 2);
    assert!(playlist.iter().any(|path| path.ends_with("track1.mp3")));
    assert!(playlist.iter().any(|path| path.ends_with("track2.ogg")));
    assert_eq!(browser.playlist_len(), 2);
}

#[test]
fn toggling_a_folder_twice_closes_it_again() {
    let disk = album_disk();
    let mut browser = FileBrowser::new(String::from("/r"), &disk).unwrap();
    assert!(browser.toggle_selected_directory());
    browser.refresh(&disk).unwrap();
    assert_eq!(browser.expanded_directories(), vec![String::from("/r"), String::from("/r/Album")]);
    assert!(browser.toggle_selected_directory());
    browser.refresh(&disk).unwrap();
    assert_eq!(browser.expanded_directories(), vec![String::from("/r")]);
    assert_eq!(browser.entries().len(), 2);
}

#[test]
fn collapsing_from_a_child_selects_its_folder() {
    let disk = album_disk();
    let mut browser = FileBrowser::new(String::from("/r"), &disk).unwrap();
    assert!(browser.expand_selected_directory());
    browser.refresh(&disk).unwrap();
    assert!(!browser.expand_selected_directory());
    browser.move_down();
    assert_eq!(browser.selected_entry().map(|e| e.name.as_str()), Some("track2.ogg"));
    assert!(browser.collapse_selected_directory_or_parent());
    browser.refresh(&disk).unwrap();
    assert_eq!(browser.selected_index(), 0);
    assert_eq!(browser.selected_entry().map(|e| e.name.as_str()), Some("Album"));
    assert!(!browser.entries()[0].expanded);
}

#[test]
fn collapsing_a_top_level_file_does_nothing() {
    let disk = album_disk();
    let mut browser = FileBrowser::new(String::from("/r"), &disk).unwrap();
    browser.move_down();
    assert!(!browser.collapse_selected_directory_or_parent());
    assert_eq!(browser.expanded_directories(), vec![String::from("/r")]);
}

#[test]
fn moving_stops_at_the_ends() {
    let mut browser = FileBrowser::new(String::from("/r"), &album_disk()).unwrap();
    browser.move_up();
    assert_eq!(browser.selected_index(), 0);
    browser.move_down();
    browser.move_down();
    browser.move_down();
    assert_eq!(browser.selected_index(), 1);
}

#[test]
fn selecting_a_track_gives_its_place_in_the_playlist() {
    let browser_disk = album_disk();
    let mut browser = FileBrowser::new(String::from("/r"), &browser_disk).unwrap();
    assert!(browser.selected_audio_selection().is_none());
    browser.move_down();
    let (path, playlist, index) = browser.selected_audio_selection().unwrap();
    assert_eq!(path, "/r/track1.mp3");
    assert_eq!(playlist[index], path);
    assert_eq!(playlist.len(), 2);
}

#[test]
fn an_unreadable_subfolder_shows_empty() {
    let disk = DiskSnapshot {
        listings: vec![
            listing("/r", vec![dir("/r/Locked")]),
            DirListing { dir: String::from("/r/Locked"), children: Err(String::from("denied")) },
        ],
        tree: vec![dir("/r"), dir("/r/Locked")],
    };
    let mut browser = FileBrowser::new(String::from("/r"), &disk).unwrap();
    assert!(browser.toggle_selected_directory());
    browser.refresh(&disk).unwrap();
    assert_eq!(browser.entries().len(), 1);
    assert!(browser.entries()[0].expanded);
}

#[test]
fn an_unreadable_root_is_an_error() {
    let disk = DiskSnapshot {
        listings: vec![DirListing { dir: String::from("/r"), children: Err(String::from("denied")) }],
        tree: Vec::new(),
    };
    let error = FileBrowser::new(String::from("/r"), &disk).unwrap_err();
    assert_eq!(error.message(), "denied");
}

#[test]
fn audio_files_are_known_by_extension_in_any_case() {
    assert!(is_audio_file("a/b.mp3"));
    assert!(is_audio_file("a/b.FLAC"));
    assert!(is_audio_file("b.Wav"));
    assert!(is_audio_file("b.ogg"));
    assert!(!is_audio_file("b.txt"));
    assert!(!is_audio_file("mp3"));
}

#[test]
fn sorting_puts_folders_first_then_names_ignoring_case() {
    let items = vec![file("/r/b.mp3"), dir("/r/zeta"), file("/r/A.mp3"), dir("/r/Alpha")];
    let sorted = sort_paths(&items);
    let paths: Vec<&str> = sorted.iter().map(|e| e.path.as_str()).collect();
    assert_eq!(paths, vec!["/r/Alpha", "/r/zeta", "/r/A.mp3", "/r/b.mp3"]);
}

#[test]
fn sorting_ignores_letter_case() {
    let items = vec![file("/r/B.mp3"), file("/r/a.mp3"), file("/r/C.mp3")];
    let sorted = sort_paths(&items);
    let paths: Vec<&str> = sorted.iter().map(|e| e.path.as_str()).collect();
    assert_eq!(paths, vec!["/r/a.mp3", "/r/B.mp3", "/r/C.mp3"]);
}
