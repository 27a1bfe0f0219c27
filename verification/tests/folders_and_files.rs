use std::collections::HashMap;

use omnisync::commands::folders::{
    channel_to_delete, cmd_create_folder, cmd_delete_folder, cmd_scan_folders, folder_name,
    mock_folder, on_channel_created, on_channel_deleted, ChannelReply, ChatInfo, CreateStep,
    DeleteStep, FolderCounter, PeerInfo, FOLDER_ABOUT,
};
use omnisync::commands::listing::{
    cmd_get_files, cmd_search_global, files_of_messages, files_of_results, DocAttribute, Found,
    FoundPeer, MessageInfo,
};
use omnisync::commands::moving::{
    cmd_delete_file, cmd_move_files, on_forwarded, on_source_deleted, MoveStep,
};
use omnisync::commands::retry::{flood_wait_seconds, AfterError, FloodRetry};
use omnisync::models::{FileMetadata, FolderMetadata, Media};

fn s(text: &str) -> String {
    text.to_string()
}

fn formula(secs: u64, seq: u64) -> i64 {
    ((secs as i64) << 16).wrapping_add(seq as i64)
}

#[test]
fn local_identifiers_are_time_and_running_number() {
    for (secs, seq) in [
        (0u64, 0u64),
        (1_700_000_000, 0),
        (1_700_000_000, 65_535),
        (1_700_000_000, 65_536),
        (u64::MAX, u64::MAX),
        (0x8000_0000_0000, 3),
        (0xFFFF_FFFF_FFFF, 0x1_2345),
    ] {
        let mut counter = FolderCounter { next: seq };
        let folder = mock_folder(s("x"), &mut counter, secs);
        assert_eq!(folder.id, formula(secs, seq));
        if seq < 65_536 {
            assert_eq!(folder.id, ((secs as i64) << 16) | seq as i64);
        }
        assert_eq!(counter.next, seq.wrapping_add(1));
    }
}

#[test]
fn local_folders_of_one_second_are_told_apart() {
    let mut counter = FolderCounter::new();
    let mut ids: Vec<i64> =
        (0..200_000).map(|_| mock_folder(s("x"), &mut counter, 1_700_000_000).id).collect();
    assert!(ids.windows(2).all(|w| w[0] < w[1]));
    ids.dedup();
    assert_eq!(ids.len(), 200_000);
    let later = mock_folder(s("x"), &mut counter, 1_700_000_001).id;
    assert!(later > ids[199_999]);
}

#[test]
fn a_folder_without_a_client_is_local() {
    let mut counter = FolderCounter::new();
    match cmd_create_folder(s("Music"), false, &mut counter) {
        CreateStep::Done(folder) => {
            assert_eq!(folder.name, "Music");
            assert_eq!(folder.parent_id, None);
            assert_eq!(folder.id & 0xFFFF, 0);
            // Any clock that is set to this century.
            assert!(folder.id >> 16 > 946_684_800);
        }
        other => panic!("{:?}", other),
    }
    assert_eq!(counter.next, 1);
}

#[test]
fn a_folder_with_a_client_is_a_channel() {
    let mut counter = FolderCounter::new();
    match cmd_create_folder(s("Music"), true, &mut counter) {
        CreateStep::Invoke(r) => {
            assert_eq!(r.title, "Music [AD]");
            assert_eq!(r.about, "OmniSync Storage Folder\n[antigravity-drive-folder]");
            assert!(r.broadcast && !r.megagroup && !r.for_import && !r.forum);
            assert_eq!(r.ttl_period, None);
        }
        other => panic!("{:?}", other),
    }
    assert_eq!(counter.next, 0);
}

#[test]
fn the_first_channel_of_the_answer_is_the_folder() {
    let made = on_channel_created(
        s("Music"),
        ChannelReply::Updates(vec![
            ChatInfo::Other,
            ChatInfo::Channel { id: 5, access_hash: None },
            ChatInfo::Channel { id: 6, access_hash: Some(7) },
        ]),
    )
    .unwrap();
    assert_eq!(made.folder, FolderMetadata { id: 5, name: s("Music"), parent_id: None });
    assert_eq!((made.access_hash, made.history_ttl), (0, 0));
    assert_eq!(
        on_channel_created(s("x"), ChannelReply::Updates(vec![ChatInfo::Other])),
        Err(s("No channel in updates"))
    );
    assert_eq!(
        on_channel_created(s("x"), ChannelReply::Other),
        Err(s("Unexpected response (not Updates::Updates)"))
    );
}

#[test]
fn deleting_folders() {
    assert_eq!(cmd_delete_folder(false), DeleteStep::Done);
    assert_eq!(cmd_delete_folder(true), DeleteStep::ResolvePeer);
    assert_eq!(
        channel_to_delete(&PeerInfo::Channel { id: 4, access_hash: Some(9) }),
        Ok((4, 9))
    );
    assert_eq!(
        channel_to_delete(&PeerInfo::Channel { id: 4, access_hash: None }),
        Err(s("No access hash for channel"))
    );
    for peer in [PeerInfo::User { id: 4 }, PeerInfo::Other] {
        assert_eq!(channel_to_delete(&peer), Err(s("Only channels (folders) can be deleted.")));
    }
    assert_eq!(on_channel_deleted(Ok(())), Ok(true));
    assert_eq!(on_channel_deleted(Err(s("e"))), Err(s("Failed to delete channel: e")));
}

#[test]
fn titles_show_as_names() {
    for title in [
        "Music [AD]", "Music", "[AD] Music [ad]", "  a[ad]b [AD] ", "[A[AD]D]", " [AD]", "[ad][AD]",
    ] {
        let expected = title
            .replace(" [AD]", "")
            .replace(" [ad]", "")
            .replace("[AD]", "")
            .replace("[ad]", "")
            .trim()
            .to_string();
        assert_eq!(folder_name(title), expected, "{:?}", title);
    }
}

#[test]
fn a_scan_finds_marked_channels_and_keeps_cached_peers() {
    let mut scan = cmd_scan_folders::<&str>(true).unwrap();
    let chan = PeerInfo::Channel { id: 1, access_hash: Some(11) };
    assert_eq!(scan.on_dialog(&chan, "one"), Some((1, 11)));
    scan.on_description(1, "Music [AD]", Some(s(FOLDER_ABOUT)));
    let plain = PeerInfo::Channel { id: 2, access_hash: None };
    assert_eq!(scan.on_dialog(&plain, "two"), Some((2, 0)));
    scan.on_description(2, "News [AD]", Some(s("daily news")));
    assert_eq!(scan.on_dialog(&PeerInfo::User { id: 3 }, "three"), None);
    assert_eq!(scan.on_dialog(&PeerInfo::Other, "four"), None);
    assert_eq!(scan.on_dialog(&chan, "one again"), Some((1, 11)));
    scan.on_description(4, "Lost", None);
    let mut cache: HashMap<i64, &str> = HashMap::new();
    cache.insert(3, "known");
    let folders = scan.finish(&mut cache);
    assert_eq!(folders, vec![FolderMetadata { id: 1, name: s("Music"), parent_id: None }]);
    assert_eq!(cache.len(), 3);
    assert_eq!(cache[&1], "one");
    assert_eq!(cache[&2], "two");
    assert_eq!(cache[&3], "known");
    assert!(cmd_scan_folders::<&str>(false).is_none());
}

#[test]
fn a_made_folder_is_found_under_its_name() {
    let mut counter = FolderCounter::new();
    for name in ["Music", "a b", "", "x [A D]", "\u{1F600}"] {
        let request = match cmd_create_folder(s(name), true, &mut counter) {
            CreateStep::Invoke(r) => r,
            other => panic!("{:?}", other),
        };
        let mut scan = cmd_scan_folders::<()>(true).unwrap();
        scan.on_description(8, &request.title, Some(request.about));
        assert_eq!(scan.folders, vec![FolderMetadata { id: 8, name: s(name), parent_id: None }]);
    }
}

#[test]
fn flood_waits_are_read() {
    assert_eq!(flood_wait_seconds("FLOOD_WAIT_17"), Some(17));
    assert_eq!(flood_wait_seconds("FLOOD_WAIT_x"), None);
    assert_eq!(flood_wait_seconds("FLOOD_WAIT_"), None);
    assert_eq!(flood_wait_seconds("flood_wait_1"), None);
    assert_eq!(flood_wait_seconds("rpc error FLOOD_WAIT_1"), None);
}

#[test]
fn flood_waits_are_outlasted_up_to_the_attempts() {
    let mut retry = FloodRetry::new(3);
    assert_eq!(retry.next(), Ok(()));
    assert_eq!(retry.on_error(s("FLOOD_WAIT_1")), AfterError::Sleep(2));
    assert_eq!(retry.next(), Ok(()));
    assert_eq!(retry.on_error(s("FLOOD_WAIT_2")), AfterError::Sleep(3));
    assert_eq!(retry.next(), Ok(()));
    assert_eq!(retry.on_error(s("FLOOD_WAIT_5")), AfterError::Fail(s("FLOOD_WAIT_5")));
    assert_eq!(retry.next(), Err(s("FLOOD_WAIT_2")));
    assert_eq!(FloodRetry::new(0).next(), Err(String::new()));
}

#[test]
fn a_single_attempt_is_not_followed_by_a_wait() {
    let mut retry = FloodRetry::new(1);
    assert_eq!(retry.next(), Ok(()));
    assert_eq!(retry.on_error(s("FLOOD_WAIT_5")), AfterError::Fail(s("FLOOD_WAIT_5")));
}

#[test]
fn the_longest_wait_stays_in_range() {
    let mut retry = FloodRetry::new(2);
    assert_eq!(retry.next(), Ok(()));
    assert_eq!(
        retry.on_error(s("FLOOD_WAIT_18446744073709551615")),
        AfterError::Sleep(u64::MAX)
    );
}

#[test]
fn other_errors_end_the_attempts() {
    let mut retry = FloodRetry::new(3);
    assert_eq!(retry.next(), Ok(()));
    assert_eq!(retry.on_error(s("PEER_ID_INVALID")), AfterError::Fail(s("PEER_ID_INVALID")));
}

#[test]
fn moving_files() {
    let ids = vec![1, 2, 3];
    assert_eq!(cmd_move_files(&ids, Some(1), Some(1), true), MoveStep::Done(3));
    assert_eq!(cmd_move_files(&ids, None, None, true), MoveStep::Done(3));
    assert_eq!(cmd_move_files(&ids, Some(1), None, false), MoveStep::Done(3));
    assert_eq!(cmd_move_files(&ids, Some(1), None, true), MoveStep::Forward);
    assert_eq!(on_forwarded(&ids, Ok(())), Ok(3));
    assert_eq!(on_forwarded(&ids, Err(s("e"))), Err(s("Forward failed: e")));
    assert_eq!(on_source_deleted(3, Err(s("e"))), Ok(3));
    assert_eq!(on_source_deleted(3, Ok(())), Ok(3));
    assert_eq!(cmd_delete_file(true), DeleteStep::ResolvePeer);
    assert_eq!(cmd_delete_file(false), DeleteStep::Done);
}

fn listed(name: &str) -> FileMetadata {
    let media = Media::Document { name: s(name), size: 4, mime_type: None };
    let message = MessageInfo { id: 1, date: s("d"), media: Some(media) };
    files_of_messages(vec![message], None).remove(0)
}

#[test]
fn messages_with_media_are_files() {
    assert_eq!(cmd_get_files(true), Some(500));
    assert_eq!(cmd_get_files(false), None);
    let messages = vec![
        MessageInfo {
            id: 10,
            date: s("2024-05-17 10:00:00 UTC"),
            media: Some(Media::Document {
                name: s("song.tar.gz"),
                size: -1,
                mime_type: Some(s("application/gzip")),
            }),
        },
        MessageInfo { id: 11, date: s("d"), media: None },
        MessageInfo { id: 12, date: s("d"), media: Some(Media::Photo) },
        MessageInfo { id: -13, date: s("d"), media: Some(Media::Other) },
    ];
    let files = files_of_messages(messages, Some(77));
    assert_eq!(files.len(), 3);
    assert_eq!(
        files[0],
        FileMetadata {
            id: 10,
            folder_id: Some(77),
            name: s("song.tar.gz"),
            size: u64::MAX,
            mime_type: Some(s("application/gzip")),
            file_ext: Some(s("gz")),
            created_at: s("2024-05-17 10:00:00 UTC"),
            icon_type: s("file"),
        }
    );
    assert_eq!(
        files[1],
        FileMetadata {
            id: 12,
            folder_id: Some(77),
            name: s("Photo.jpg"),
            size: 0,
            mime_type: Some(s("image/jpeg")),
            file_ext: Some(s("jpg")),
            created_at: s("d"),
            icon_type: s("file"),
        }
    );
    assert_eq!(
        files[2],
        FileMetadata {
            id: -13,
            folder_id: Some(77),
            name: s("Unknown"),
            size: 0,
            mime_type: None,
            file_ext: None,
            created_at: s("d"),
            icon_type: s("file"),
        }
    );
}

#[test]
fn extensions_of_names() {
    let rows: [(&str, Option<&str>); 26] = [
        ("12:30.txt", Some("txt")),
        ("ab:c.d", Some("d")),
        (":x.y", Some("y")),
        ("a/b:c.d", Some("d")),
        ("\u{e9}:x.y", Some("y")),
        ("a.txt", Some("txt")),
        ("a.tar.gz", Some("gz")),
        ("a.", Some("")),
        ("a", None),
        ("", None),
        (".", None),
        ("..", None),
        ("...", Some("")),
        (".bashrc", None),
        (".x.y", Some("y")),
        ("dir.d/name", None),
        ("dir/a.txt", Some("txt")),
        ("a.txt/", Some("txt")),
        ("a.txt/./", Some("txt")),
        ("a.txt//.//", Some("txt")),
        ("a.txt/..", None),
        ("./.", None),
        ("/", None),
        ("/a.b", Some("b")),
        ("x/.hidden", None),
        ("x/...", Some("")),
    ];
    for (name, ext) in rows {
        assert_eq!(listed(name).file_ext.as_deref(), ext, "{:?}", name);
    }
}

#[test]
fn extensions_in_the_reading_of_the_system() {
    // The name, and its extension with slashes alone and with backslashes as separators.
    let rows: [(&str, Option<&str>, Option<&str>); 7] = [
        ("a.b\\c", Some("b\\c"), None),
        ("dir\\x.y", Some("y"), Some("y")),
        ("c:.x", Some("x"), None),
        ("c:x.y", Some("y"), Some("y")),
        ("x.y\\", Some("y\\"), Some("y")),
        ("\\\\server\\share.x", Some("x"), None),
        ("\\\\server\\share\\a.b", Some("b"), Some("b")),
    ];
    for (name, slash, backslash) in rows {
        let ext = listed(name).file_ext;
        let expected = if std::path::MAIN_SEPARATOR == '/' { slash } else { backslash };
        assert_eq!(ext.as_deref(), expected, "{:?}", name);
    }
}

#[test]
fn searches_ask_for_fifty_documents() {
    assert!(cmd_search_global(s("q"), false).is_none());
    let r = cmd_search_global(s("holiday"), true).unwrap();
    assert_eq!((r.q.as_str(), r.limit, r.folder_id), ("holiday", 50, None));
    assert_eq!((r.min_date, r.max_date, r.offset_rate, r.offset_id), (0, 0, 0, 0));
    assert!(!r.broadcasts_only && !r.groups_only && !r.users_only);
}

#[test]
fn search_results_are_files() {
    let found = vec![
        Found::Other,
        Found::Document {
            id: 3,
            date: -5,
            peer: FoundPeer::User(9),
            attributes: vec![
                DocAttribute::Other,
                DocAttribute::Filename(s("a.pdf")),
                DocAttribute::Filename(s("b.pdf")),
            ],
            size: 12,
            mime_type: s("application/pdf"),
        },
        Found::Document {
            id: 4,
            date: 1_700_000_000,
            peer: FoundPeer::Channel(10),
            attributes: vec![DocAttribute::Other],
            size: 0,
            mime_type: s("text/plain"),
        },
        Found::Document {
            id: 5,
            date: 0,
            peer: FoundPeer::Chat(11),
            attributes: vec![],
            size: 0,
            mime_type: s("text/plain"),
        },
    ];
    let files = files_of_results(found);
    assert_eq!(files.len(), 3);
    assert_eq!(
        files[0],
        FileMetadata {
            id: 3,
            folder_id: Some(9),
            name: s("a.pdf"),
            size: 12,
            mime_type: Some(s("application/pdf")),
            file_ext: Some(s("pdf")),
            created_at: s("-5"),
            icon_type: s("file"),
        }
    );
    assert_eq!(
        (files[1].name.as_str(), files[1].folder_id, files[1].file_ext.as_deref()),
        ("Unknown", Some(10), None)
    );
    assert_eq!(files[1].created_at, "1700000000");
    assert_eq!(files[2].folder_id, Some(11));
}
