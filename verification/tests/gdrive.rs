use std::collections::HashMap;

use omnisync::commands::gdrive::backoff::{SyncLoop, KILL_AFTER_FAILURES, STOPPED_MESSAGE};
use omnisync::commands::gdrive::files::{
    cmd_gdrive_list_files, DriveChangeFile, DriveFileListResponse, MAX_TOTAL,
};
use omnisync::commands::gdrive::oauth::{
    cmd_gdrive_connect, read_query, read_request, Callback, Credentials, SignIn, SignInFailure,
};
use omnisync::commands::gdrive::state::{
    cmd_gdrive_disconnect, cmd_gdrive_set_credentials, cmd_gdrive_sync_status, GDriveState,
};
use omnisync::commands::gdrive::store::{
    cmd_gdrive_restore_tokens, delete_tokens, StoreValue,
};
use omnisync::commands::gdrive::sync::{
    changes_params, on_download_answer, on_downloaded, on_temp_path, DeliverStep, DriveChange,
    DriveChangesResponse, FileFailure, SyncBatch,
};
use omnisync::commands::gdrive::token::{RefreshRequest, TokenResponse, TokenStep};
use omnisync::models::{SyncEvent, SyncStatus, SyncStatusKind};

fn s(text: &str) -> String {
    text.to_string()
}

fn o(text: &str) -> Option<String> {
    Some(text.to_string())
}

fn pairs(rows: &[(&str, &str)]) -> Vec<(String, String)> {
    rows.iter().map(|(a, b)| (s(a), s(b))).collect()
}

fn connected() -> GDriveState {
    let mut d = GDriveState::default();
    d.access_token = o("acc");
    d.refresh_token = o("ref");
    d.token_expiry = 1000;
    d.client_id = o("cid");
    d.client_secret = o("sec");
    d.changes_token = o("42");
    d.files_synced = 7;
    d.status = SyncStatus {
        state: SyncStatusKind::Connected,
        message: s("Up to date"),
        last_synced: o("10:11:12"),
        files_synced: 7,
    };
    d
}

fn change_file(id: &str, name: &str, mime: &str) -> DriveChangeFile {
    DriveChangeFile {
        id: s(id),
        name: s(name),
        mime_type: s(mime),
        size: o("5"),
        modified_time: None,
        parents: None,
        trashed: None,
    }
}

// The connection.

#[test]
fn a_new_connection_is_disconnected() {
    let d = GDriveState::default();
    let status = cmd_gdrive_sync_status(&d).unwrap();
    assert_eq!(status, SyncStatus::default());
    assert_eq!(status.state, SyncStatusKind::Disconnected);
    assert_eq!((status.message.as_str(), status.last_synced, status.files_synced), ("", None, 0));
}

#[test]
fn credentials_are_kept() {
    let mut d = GDriveState::default();
    assert_eq!(cmd_gdrive_set_credentials(&mut d, s("cid"), s("sec")), Ok(true));
    assert_eq!((d.client_id, d.client_secret), (o("cid"), o("sec")));
}

#[test]
fn giving_up_keeps_the_credentials() {
    let mut d = connected();
    assert_eq!(cmd_gdrive_disconnect(&mut d), Ok(true));
    assert_eq!((d.access_token.as_ref(), d.refresh_token.as_ref()), (None, None));
    assert_eq!((d.token_expiry, d.changes_token.as_ref()), (0, None));
    assert_eq!((d.client_id.as_deref(), d.client_secret.as_deref()), (Some("cid"), Some("sec")));
    assert_eq!(d.files_synced, 7);
    assert_eq!(
        d.status,
        SyncStatus {
            state: SyncStatusKind::Disconnected,
            message: s("Disconnected"),
            last_synced: None,
            files_synced: 0,
        }
    );
    assert_eq!(d.get_valid_token_at(0), TokenStep::Fail(s("Not connected to Google Drive")));
    assert_eq!(d.get_valid_token(), TokenStep::Fail(s("Not connected to Google Drive")));
}

// The store.

fn entries(store: &HashMap<String, String>, expiry: u64) -> Vec<(String, StoreValue)> {
    let mut all: Vec<(String, StoreValue)> =
        store.iter().map(|(k, v)| (k.clone(), StoreValue::Text(v.clone()))).collect();
    all.push((s("gdrive_token_expiry"), StoreValue::Number(expiry)));
    all
}

#[test]
fn a_saved_connection_is_restored() {
    let saved = connected();
    let written = saved.save_tokens();
    assert_eq!(
        written,
        vec![
            (s("gdrive_access_token"), StoreValue::Text(s("acc"))),
            (s("gdrive_refresh_token"), StoreValue::Text(s("ref"))),
            (s("gdrive_token_expiry"), StoreValue::Number(1000)),
            (s("gdrive_changes_token"), StoreValue::Text(s("42"))),
            (s("gdrive_client_id"), StoreValue::Text(s("cid"))),
            (s("gdrive_client_secret"), StoreValue::Text(s("sec"))),
        ]
    );
    let mut fresh = GDriveState::default();
    assert_eq!(cmd_gdrive_restore_tokens(&mut fresh, &written), Ok(true));
    assert_eq!(fresh.access_token, saved.access_token);
    assert_eq!(fresh.refresh_token, saved.refresh_token);
    assert_eq!(fresh.token_expiry, 1000);
    assert_eq!(fresh.changes_token, saved.changes_token);
    assert_eq!(fresh.client_id, saved.client_id);
    assert_eq!(fresh.client_secret, saved.client_secret);
    assert_eq!(fresh.status.state, SyncStatusKind::Connected);
    assert_eq!(fresh.status.message, "Restored from saved session");
}

#[test]
fn a_connection_saves_what_it_has() {
    let d = GDriveState::default();
    assert_eq!(d.save_tokens(), vec![(s("gdrive_token_expiry"), StoreValue::Number(0))]);
}

#[test]
fn an_erased_connection_stays_away() {
    let keys = delete_tokens();
    assert_eq!(
        keys,
        vec![
            "gdrive_access_token",
            "gdrive_refresh_token",
            "gdrive_token_expiry",
            "gdrive_changes_token",
        ]
    );
    let left: Vec<(String, StoreValue)> = connected()
        .save_tokens()
        .into_iter()
        .filter(|(k, _)| !keys.contains(&k.as_str()))
        .collect();
    let mut fresh = GDriveState::default();
    assert_eq!(cmd_gdrive_restore_tokens(&mut fresh, &left), Ok(false));
    assert_eq!((fresh.access_token, fresh.refresh_token), (None, None));
    assert_eq!((fresh.token_expiry, fresh.changes_token), (0, None));
    assert_eq!((fresh.client_id, fresh.client_secret), (o("cid"), o("sec")));
    assert_eq!(fresh.status, SyncStatus::default());
}

#[test]
fn values_of_another_kind_are_not_restored() {
    let mut d = connected();
    let odd = vec![
        (s("gdrive_access_token"), StoreValue::Number(4)),
        (s("gdrive_refresh_token"), StoreValue::Other),
        (s("gdrive_token_expiry"), StoreValue::Text(s("9"))),
        (s("gdrive_client_id"), StoreValue::Other),
    ];
    assert_eq!(cmd_gdrive_restore_tokens(&mut d, &odd), Ok(false));
    assert_eq!((d.access_token, d.refresh_token, d.token_expiry), (None, None, 0));
    assert_eq!((d.client_id, d.client_secret), (o("cid"), o("sec")));
}

#[test]
fn the_order_of_the_entries_does_not_matter() {
    let mut store = HashMap::new();
    store.insert(s("gdrive_refresh_token"), s("r"));
    store.insert(s("other"), s("x"));
    let mut d = GDriveState::default();
    assert_eq!(cmd_gdrive_restore_tokens(&mut d, &entries(&store, 12)), Ok(true));
    assert_eq!((d.refresh_token, d.token_expiry), (o("r"), 12));
}

// Tokens.

#[test]
fn a_token_is_used_until_it_expires() {
    let d = connected();
    assert_eq!(d.get_valid_token_at(999), TokenStep::Use(s("acc")));
    let refresh = TokenStep::Refresh(RefreshRequest {
        client_id: s("cid"),
        client_secret: s("sec"),
        refresh_token: s("ref"),
    });
    assert_eq!(d.get_valid_token_at(1000), refresh);
    // A clock of this century is past that second.
    assert_eq!(d.get_valid_token(), refresh);
    let mut forever = connected();
    forever.token_expiry = u64::MAX;
    assert_eq!(forever.get_valid_token(), TokenStep::Use(s("acc")));
}

#[test]
fn without_the_means_there_is_no_token() {
    let mut d = connected();
    d.client_secret = None;
    let missing = TokenStep::Fail(s("Google OAuth credentials not configured"));
    assert_eq!(d.get_valid_token_at(5000), missing);
    d.client_secret = o("sec");
    d.client_id = None;
    assert_eq!(d.get_valid_token_at(5000), missing);
    d.refresh_token = None;
    assert_eq!(d.get_valid_token_at(5000), TokenStep::Fail(s("Not connected to Google Drive")));
    assert_eq!(d.get_valid_token_at(5), TokenStep::Use(s("acc")));
}

fn answer(refresh: Option<&str>) -> TokenResponse {
    TokenResponse {
        access_token: s("new"),
        expires_in: 3600,
        refresh_token: refresh.map(|r| r.to_string()),
    }
}

#[test]
fn a_refreshed_token_expires_a_minute_early() {
    let mut d = connected();
    assert_eq!(d.on_refreshed_at(10_000, answer(Some("ignored"))), "new");
    assert_eq!((d.access_token.as_deref(), d.token_expiry), (Some("new"), 13_540));
    assert_eq!(d.refresh_token.as_deref(), Some("ref"));
    assert_eq!(d.get_valid_token_at(13_539), TokenStep::Use(s("new")));
    assert!(matches!(d.get_valid_token_at(13_540), TokenStep::Refresh(_)));
    d.on_refreshed_at(u64::MAX, answer(None));
    assert_eq!(d.token_expiry, u64::MAX - 60);
    let short = TokenResponse { access_token: s("x"), expires_in: 5, refresh_token: None };
    d.on_refreshed_at(0, short);
    assert_eq!(d.token_expiry, 0);
    assert_eq!(d.on_refreshed(answer(None)), "new");
    // A clock of this century.
    assert!(d.token_expiry > 946_684_800);
}

#[test]
fn a_sign_in_keeps_the_refresh_token_if_none_comes() {
    let mut d = connected();
    d.on_signed_in_at(10_000, answer(None));
    assert_eq!((d.access_token.as_deref(), d.token_expiry), (Some("new"), 13_540));
    assert_eq!(d.refresh_token.as_deref(), Some("ref"));
    d.on_signed_in_at(10_000, answer(Some("other")));
    assert_eq!(d.refresh_token.as_deref(), Some("other"));
    d.on_signed_in(answer(Some("third")));
    assert_eq!(d.refresh_token.as_deref(), Some("third"));
    assert!(d.token_expiry > 946_684_800);
}

#[test]
fn forms_for_tokens() {
    let r = RefreshRequest { client_id: s("a"), client_secret: s("b"), refresh_token: s("c") };
    assert_eq!(
        r.params(),
        pairs(&[
            ("client_id", "a"),
            ("client_secret", "b"),
            ("refresh_token", "c"),
            ("grant_type", "refresh_token"),
        ])
    );
}

#[test]
fn tokens_are_revoked_encoded() {
    let mut d = connected();
    d.access_token = o("a/b+c~\u{e9}");
    assert_eq!(
        d.revoke_url().as_deref(),
        Some("https://oauth2.googleapis.com/revoke?token=a%2Fb%2Bc~%C3%A9")
    );
    d.access_token = None;
    assert_eq!(d.revoke_url(), None);
}

// Signing in.

fn credentials() -> Credentials {
    Credentials { client_id: s("id with space&"), client_secret: s("sec") }
}

#[test]
fn one_sign_in_at_a_time() {
    let mut d = GDriveState::default();
    let missing = Err(s("Set OAuth credentials first via cmd_gdrive_set_credentials"));
    assert_eq!(cmd_gdrive_connect(&mut d), missing);
    assert!(!d.connecting);
    d.client_id = o("cid");
    assert_eq!(cmd_gdrive_connect(&mut d), missing);
    d.client_secret = o("sec");
    assert_eq!(
        cmd_gdrive_connect(&mut d),
        Ok(Credentials { client_id: s("cid"), client_secret: s("sec") })
    );
    assert!(d.connecting);
    assert_eq!(cmd_gdrive_connect(&mut d), Err(s("Connection already in progress")));
    d.end_sign_in();
    assert!(!d.connecting);
    assert!(cmd_gdrive_connect(&mut d).is_ok());
}

#[test]
fn the_stages_of_a_sign_in() {
    let mut d = connected();
    d.on_browser_opened();
    assert_eq!(d.status.state, SyncStatusKind::Connecting);
    assert_eq!(d.status.message, "Waiting for Google sign-in\u{2026}");
    d.on_start_token(o("99"));
    assert_eq!(d.changes_token.as_deref(), Some("99"));
    assert_eq!(d.status.state, SyncStatusKind::Connected);
    assert_eq!(d.status.message, "Google Drive connected");
    assert_eq!(d.status.last_synced.as_deref(), Some("10:11:12"));
    d.on_start_token(None);
    assert_eq!(d.changes_token, None);
}

#[test]
fn the_browser_is_sent_to_google() {
    let sign_in = SignIn::with_nonce(credentials(), 5123, s("00ff"));
    assert_eq!(sign_in.redirect_uri, "http://127.0.0.1:5123/gdrive/callback");
    assert_eq!(
        sign_in.auth_url(),
        "https://accounts.google.com/o/oauth2/v2/auth?\
         client_id=id%20with%20space%26\
         &redirect_uri=http%3A%2F%2F127.0.0.1%3A5123%2Fgdrive%2Fcallback\
         &response_type=code\
         &scope=https%3A%2F%2Fwww.googleapis.com%2Fauth%2Fdrive.readonly\
         &access_type=offline\
         &prompt=consent\
         &state=00ff"
    );
}

#[test]
fn nonces_are_thirty_two_bytes_and_stand_as_they_are() {
    let a = SignIn::new(credentials(), 1);
    let b = SignIn::new(credentials(), 1);
    assert_eq!(a.nonce.len(), 64);
    assert_ne!(a.nonce, b.nonce);
    assert!(a.nonce.chars().all(|c| c.is_ascii_digit() || ('a'..='f').contains(&c)));
    assert!(a.auth_url().ends_with(&format!("&state={}", a.nonce)));
}

#[test]
fn every_byte_is_encoded_or_plain() {
    for c in (0..0x2000u32).filter_map(char::from_u32) {
        let mut d = GDriveState::default();
        d.access_token = Some(c.to_string());
        let expected: String = c
            .to_string()
            .bytes()
            .map(|b| {
                if b.is_ascii_alphanumeric() || b"-._~".contains(&b) {
                    (b as char).to_string()
                } else {
                    format!("%{:02X}", b)
                }
            })
            .collect();
        let url = d.revoke_url().unwrap();
        assert_eq!(url.strip_prefix("https://oauth2.googleapis.com/revoke?token="), Some(&*expected));
    }
}

#[test]
fn callbacks_are_read_from_the_request_line() {
    assert_eq!(
        read_request("GET /gdrive/callback?code=4%2Fab+c&state=00ff HTTP/1.1\r\n"),
        Callback::Granted { code: s("4/ab c"), state: s("00ff") }
    );
    assert_eq!(
        read_request("GET /gdrive/callback?code=x HTTP/1.1\r\n"),
        Callback::Granted { code: s("x"), state: s("") }
    );
    assert_eq!(
        read_request("GET /gdrive/callback?code=x&error=access_denied HTTP/1.1\r\n"),
        Callback::Cancelled { error: s("access_denied") }
    );
    assert_eq!(read_request("GET /favicon.ico HTTP/1.1\r\n"), Callback::Stray);
    assert_eq!(read_request("GET /?state=1 HTTP/1.1\r\n"), Callback::Stray);
    assert_eq!(read_request("GET"), Callback::Unreadable);
    assert_eq!(read_request(""), Callback::Unreadable);
    assert_eq!(read_request("GET :99999/ HTTP/1.1"), Callback::Unreadable);
}

#[test]
fn of_several_values_the_last_counts() {
    assert_eq!(
        read_query(Some(pairs(&[("code", "1"), ("state", "a"), ("code", "2"), ("x", "y")]))),
        Callback::Granted { code: s("2"), state: s("a") }
    );
    assert_eq!(
        read_query(Some(pairs(&[("error", "1"), ("error", "2"), ("code", "2")]))),
        Callback::Cancelled { error: s("2") }
    );
    assert_eq!(read_query(Some(vec![])), Callback::Stray);
    assert_eq!(read_query(None), Callback::Unreadable);
}

#[test]
fn callbacks_are_answered() {
    assert_eq!(Callback::Unreadable.reply(), None);
    assert_eq!(Callback::Stray.reply(), Some("HTTP/1.1 404 Not Found\r\n\r\n"));
    assert_eq!(
        Callback::Cancelled { error: s("e") }.reply(),
        Some(
            "HTTP/1.1 400 Bad Request\r\nContent-Type: text/html; charset=utf-8\r\n\r\n\
             <html><body style='font-family:sans-serif;text-align:center;padding:60px'>\
             <h2>\u{274C} Google sign-in cancelled</h2>\
             <p>You can close this tab and return to OmniSync.</p></body></html>"
        )
    );
    assert_eq!(
        Callback::Granted { code: s("c"), state: s("n") }.reply(),
        Some(
            "HTTP/1.1 200 OK\r\nContent-Type: text/html; charset=utf-8\r\n\r\n\
             <html><body style='font-family:sans-serif;text-align:center;padding:60px'>\
             <h2>\u{2705} Connected to Google Drive</h2>\
             <p>You can close this tab and return to OmniSync.</p></body></html>"
        )
    );
}

#[test]
fn a_code_needs_the_nonce() {
    let sign_in = SignIn::with_nonce(credentials(), 1, s("n"));
    let granted = |state: &str| Callback::Granted { code: s("c"), state: s(state) };
    assert_eq!(sign_in.on_callback(granted("n")), Some(Ok(s("c"))));
    assert_eq!(
        sign_in.on_callback(granted("m")),
        Some(Err(s("OAuth state mismatch \u{2014} possible CSRF")))
    );
    assert_eq!(
        sign_in.on_callback(Callback::Cancelled { error: s("denied") }),
        Some(Err(s("Google OAuth error: denied")))
    );
    assert_eq!(sign_in.on_callback(Callback::Stray), None);
    assert_eq!(sign_in.on_callback(Callback::Unreadable), None);
}

#[test]
fn the_code_is_traded_for_tokens() {
    let sign_in = SignIn::with_nonce(credentials(), 1, s("n"));
    assert_eq!(
        sign_in.exchange_params("c"),
        pairs(&[
            ("code", "c"),
            ("client_id", "id with space&"),
            ("client_secret", "sec"),
            ("redirect_uri", "http://127.0.0.1:1/gdrive/callback"),
            ("grant_type", "authorization_code"),
        ])
    );
}

#[test]
fn failures_of_a_sign_in() {
    assert_eq!(SignInFailure::Bind(s("e")).message(), "Cannot bind OAuth listener: e");
    assert_eq!(SignInFailure::Accept(s("e")).message(), "OAuth listener accept failed: e");
    assert_eq!(SignInFailure::TimedOut.message(), "OAuth timed out after 5 minutes");
    assert_eq!(SignInFailure::Exchange(s("e")).message(), "Token exchange failed: e");
    assert_eq!(SignInFailure::Parse(s("e")).message(), "Token parse failed: e");
}

// Listing.

fn page(ids: std::ops::Range<usize>, next: Option<&str>) -> DriveFileListResponse {
    DriveFileListResponse {
        files: Some(ids.map(|i| change_file(&i.to_string(), "n", "text/plain")).collect()),
        next_page_token: next.map(|t| t.to_string()),
    }
}

#[test]
fn folders_are_named_in_the_query() {
    let top = cmd_gdrive_list_files(None).unwrap();
    assert_eq!(top.query, "'root' in parents and trashed = false");
    assert_eq!(
        top.params(),
        pairs(&[
            ("q", "'root' in parents and trashed = false"),
            ("fields", "nextPageToken,files(id,name,mimeType,size,modifiedTime,parents)"),
            ("pageSize", "200"),
        ])
    );
    let one = cmd_gdrive_list_files(o("aZ_0-9")).unwrap();
    assert_eq!(one.query, "'aZ_0-9' in parents and trashed = false");
    assert!(cmd_gdrive_list_files(o("")).is_ok());
    for bad in ["a'b", "a b", "a/b", "\u{e9}", "x' or 'y"] {
        assert_eq!(cmd_gdrive_list_files(o(bad)), Err(s("Invalid folder_id")));
    }
}

#[test]
fn every_page_is_gathered() {
    let mut listing = cmd_gdrive_list_files(None).unwrap();
    assert!(listing.on_page(page(0..3, Some("p2"))));
    assert_eq!(listing.params()[3], (s("pageToken"), s("p2")));
    assert!(listing.on_page(DriveFileListResponse { files: None, next_page_token: o("p3") }));
    assert!(!listing.on_page(page(3..5, None)));
    let ids: Vec<&str> = listing.all.iter().map(|f| f.id.as_str()).collect();
    assert_eq!(ids, vec!["0", "1", "2", "3", "4"]);
    assert_eq!(listing.all[0].size.as_deref(), Some("5"));
    let mut listing = cmd_gdrive_list_files(None).unwrap();
    assert!(!listing.on_page(page(0..1, Some(""))));
}

#[test]
fn a_listing_is_bounded() {
    let mut listing = cmd_gdrive_list_files(None).unwrap();
    assert!(listing.on_page(page(0..MAX_TOTAL - 1, Some("p"))));
    assert!(!listing.on_page(page(0..3, Some("q"))));
    assert_eq!(listing.all.len(), 5000);
    let mut exact = cmd_gdrive_list_files(None).unwrap();
    assert!(!exact.on_page(page(0..MAX_TOTAL, Some("p"))));
    assert_eq!(exact.all.len(), 5000);
}

// Synchronising.

fn change(file: Option<DriveChangeFile>, removed: Option<bool>) -> DriveChange {
    DriveChange { file_id: None, file, removed }
}

fn batch() -> SyncBatch {
    let mut trashed = change_file("t", "t", "text/plain");
    trashed.trashed = Some(true);
    let mut kept = change_file("k", "kept", "text/plain");
    kept.trashed = Some(false);
    SyncBatch::new(DriveChangesResponse {
        new_start_page_token: None,
        next_page_token: o("43"),
        changes: Some(vec![
            change(Some(change_file("a", "a.txt", "text/plain")), None),
            change(Some(change_file("b", "b", "text/plain")), Some(true)),
            change(None, None),
            change(Some(trashed), None),
            change(Some(change_file("d", "doc", "application/vnd.google-apps.document")), None),
            change(Some(kept), Some(false)),
        ]),
    })
}

#[test]
fn changes_are_asked_for() {
    assert_eq!(
        changes_params("42"),
        pairs(&[
            ("pageToken", "42"),
            (
                "fields",
                "newStartPageToken,nextPageToken,changes(fileId,removed,file(id,name,mimeType,size,modifiedTime,parents,trashed))",
            ),
            ("includeRemoved", "false"),
            ("spaces", "drive"),
        ])
    );
}

#[test]
fn a_look_at_the_changes_begins_with_a_page_token() {
    let mut d = connected();
    assert_eq!(d.begin_tick(), Ok(s("42")));
    assert_eq!(d.status.state, SyncStatusKind::Syncing);
    assert_eq!(d.status.message, "Checking for changes\u{2026}");
    d.changes_token = None;
    let before = d.status.clone();
    assert_eq!(d.begin_tick(), Err(s("No changes page token")));
    assert_eq!(d.status, before);
}

#[test]
fn only_files_that_can_be_downloaded_are_brought_over() {
    let b = batch();
    let ids: Vec<&str> = b.new_files.iter().map(|f| f.id.as_str()).collect();
    assert_eq!(ids, vec!["a", "k"]);
    assert_eq!(b.pending_next_token.as_deref(), Some("43"));
    let both = SyncBatch::new(DriveChangesResponse {
        new_start_page_token: o("start"),
        next_page_token: o("next"),
        changes: None,
    });
    assert_eq!(both.pending_next_token.as_deref(), Some("start"));
    assert!(both.new_files.is_empty());
}

#[test]
fn the_page_token_waits_for_the_batch() {
    let mut d = connected();
    let mut b = batch();
    assert_eq!(b.current().map(|f| f.name.as_str()), Some("a.txt"));
    assert_eq!(
        d.file_status(b.current().unwrap()),
        SyncStatus {
            state: SyncStatusKind::Syncing,
            message: s("Downloading 'a.txt'\u{2026}"),
            last_synced: o("10:11:12"),
            files_synced: 7,
        }
    );
    assert_eq!(
        b.on_file(&mut d, Ok(())),
        SyncEvent {
            event_type: s("file_synced"),
            file_name: o("a.txt"),
            message: s("Successfully synced 'a.txt'"),
        }
    );
    assert_eq!((d.files_synced, d.changes_token.as_deref()), (8, Some("42")));
    assert_eq!(
        b.on_file(&mut d, Err(s("lost"))),
        SyncEvent {
            event_type: s("error"),
            file_name: o("kept"),
            message: s("Failed to sync 'kept': lost"),
        }
    );
    assert_eq!((d.files_synced, d.changes_token.as_deref()), (8, Some("42")));
    assert_eq!(b.current(), None);
    assert!(b.advance(&mut d));
    assert_eq!(d.changes_token.as_deref(), Some("43"));
    b.finish_at(&mut d, s("12:00:00"));
    assert_eq!(
        d.status,
        SyncStatus {
            state: SyncStatusKind::Connected,
            message: s("2 file(s) synced"),
            last_synced: o("12:00:00"),
            files_synced: 8,
        }
    );
    assert_eq!(d.access_token.as_deref(), Some("acc"));
}

#[test]
fn a_look_without_changes_is_up_to_date() {
    let mut d = connected();
    let b = SyncBatch::new(DriveChangesResponse {
        new_start_page_token: None,
        next_page_token: None,
        changes: None,
    });
    assert_eq!(b.current(), None);
    assert!(!b.advance(&mut d));
    assert_eq!(d.changes_token.as_deref(), Some("42"));
    b.finish(&mut d);
    assert_eq!(d.status.message, "Up to date");
    let time = d.status.last_synced.unwrap();
    let parts: Vec<&str> = time.split(':').collect();
    assert_eq!(parts.len(), 3);
    assert!(parts.iter().all(|p| p.len() == 2 && p.chars().all(|c| c.is_ascii_digit())));
}

#[test]
fn the_count_of_files_wraps() {
    let mut d = connected();
    d.files_synced = u64::MAX;
    batch().on_file(&mut d, Ok(()));
    assert_eq!(d.files_synced, 0);
}

#[test]
fn files_are_downloaded_under_a_temporary_name() {
    let f = change_file("id1", "dir/a/b.txt", "text/plain");
    assert_eq!(f.download_url(), "https://www.googleapis.com/drive/v3/files/id1?alt=media");
    assert_eq!(f.temp_name_at(123), "gdrive_sync_id1_123_dir_a_b.txt");
    let name = f.temp_name();
    assert!(name.starts_with("gdrive_sync_id1_") && name.ends_with("_dir_a_b.txt"));
    assert!(!name.contains('/'));
    let stamp: u128 = name["gdrive_sync_id1_".len()..name.len() - "_dir_a_b.txt".len()]
        .parse()
        .unwrap();
    // A clock of this century, in nanoseconds.
    assert!(stamp > 946_684_800_000_000_000);
}

#[test]
fn revisions_of_a_file_have_temporary_names_of_their_own() {
    let old = change_file("id1", "2_a", "text/plain");
    let new = change_file("id1", "a", "text/plain");
    assert_ne!(old.temp_name_at(1), new.temp_name_at(12));
    assert_ne!(new.temp_name_at(1), new.temp_name_at(2));
    assert_eq!(new.temp_name_at(1), new.temp_name_at(1));
}

#[test]
fn the_steps_of_bringing_a_file_over() {
    assert_eq!(on_download_answer(true, s("200 OK")), Ok(()));
    assert_eq!(
        on_download_answer(false, s("404 Not Found")),
        Err(FileFailure::Status(s("404 Not Found")))
    );
    assert_eq!(on_temp_path(o("/tmp/x"), s("shown")), Ok(s("/tmp/x")));
    assert_eq!(on_temp_path(None, s("shown")), Err(FileFailure::Path(s("shown"))));
    assert_eq!(on_downloaded(true), DeliverStep::Upload);
    assert_eq!(on_downloaded(false), DeliverStep::Done);
}

#[test]
fn failures_of_a_file() {
    assert_eq!(FileFailure::Request(s("e")).message(), "Download request failed: e");
    assert_eq!(FileFailure::Status(s("404 Not Found")).message(), "Google Drive returned 404 Not Found");
    assert_eq!(FileFailure::Path(s("p")).message(), "Temp path is not valid UTF-8: p");
    assert_eq!(FileFailure::TaskLost(s("e")).message(), "Task join error: e");
    assert_eq!(FileFailure::Plain(s("e")).message(), "e");
}

#[test]
fn the_delay_doubles_up_to_five_minutes() {
    let mut d = connected();
    let mut l = SyncLoop::new();
    let mut delays = vec![l.delay_secs];
    for _ in 0..7 {
        let step = l.on_tick(&mut d, Err(s("e")));
        assert!(!step.stop);
        delays.push(l.delay_secs);
    }
    assert_eq!(delays, vec![10, 20, 40, 80, 160, 300, 300, 300]);
    let step = l.on_tick(&mut d, Ok(()));
    assert!(!step.stop && step.notices.is_empty());
    assert_eq!(l, SyncLoop::new());
}

#[test]
fn it_stops_at_the_thirtieth_failure_in_a_row() {
    let mut d = connected();
    let mut l = SyncLoop::new();
    for _ in 1..KILL_AFTER_FAILURES {
        let step = l.on_tick(&mut d, Err(s("e")));
        assert!(!step.stop);
        assert_eq!(step.notices.len(), 1);
        assert_eq!(step.notices[0].status.state, SyncStatusKind::Error);
        assert_eq!(step.notices[0].status.message, "e");
        assert_eq!(step.notices[0].status.last_synced.as_deref(), Some("10:11:12"));
        assert_eq!(
            step.notices[0].event,
            SyncEvent { event_type: s("error"), file_name: None, message: s("e") }
        );
    }
    let step = l.on_tick(&mut d, Err(s("last")));
    assert!(step.stop);
    let messages: Vec<&str> = step.notices.iter().map(|n| n.event.message.as_str()).collect();
    assert_eq!(messages, vec!["last", STOPPED_MESSAGE]);
    assert_eq!(d.status.message, STOPPED_MESSAGE);
    assert_eq!(d.status.state, SyncStatusKind::Error);
    assert_eq!(
        STOPPED_MESSAGE,
        "Sync stopped after repeated failures. Please reconnect to retry."
    );
}

#[test]
fn only_failures_in_a_row_count() {
    let mut d = connected();
    let mut l = SyncLoop::new();
    for round in 0..5u32 {
        for k in 1..KILL_AFTER_FAILURES {
            assert!(!l.on_tick(&mut d, Err(s("e"))).stop, "round {}", round);
            assert_eq!(l.consecutive_failures, k);
        }
        l.on_tick(&mut d, Ok(()));
        assert_eq!(l.consecutive_failures, 0);
    }
}
