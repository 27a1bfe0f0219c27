//! What is known of the connection to Google Drive.
use vstd::prelude::*;

use crate::models::{Status, SyncStatus, SyncStatusKind};

verus! {

/// The connection to Google Drive.
#[derive(Debug, PartialEq)]
pub struct GDriveState {
    pub access_token: Option<String>,
    pub refresh_token: Option<String>,
    /// The second from which on the access token counts as expired.
    pub token_expiry: u64,
    pub client_id: Option<String>,
    pub client_secret: Option<String>,
    pub status: SyncStatus,
    /// Where the list of changes is to be read on.
    pub changes_token: Option<String>,
    pub files_synced: u64,
    /// A sign-in is under way.
    pub connecting: bool,
}

/// What a `GDriveState` says.
pub struct Drive {
    pub access_token: Option<Seq<char>>,
    pub refresh_token: Option<Seq<char>>,
    pub token_expiry: u64,
    pub client_id: Option<Seq<char>>,
    pub client_secret: Option<Seq<char>>,
    pub status: Status,
    pub changes_token: Option<Seq<char>>,
    pub files_synced: u64,
    pub connecting: bool,
}

impl View for GDriveState {
    type V = Drive;

    open spec fn view(&self) -> Drive {
        Drive {
            access_token: self.access_token.deep_view(),
            refresh_token: self.refresh_token.deep_view(),
            token_expiry: self.token_expiry,
            client_id: self.client_id.deep_view(),
            client_secret: self.client_secret.deep_view(),
            status: self.status@,
            changes_token: self.changes_token.deep_view(),
            files_synced: self.files_synced,
            connecting: self.connecting,
        }
    }
}

/// A connection of which nothing is known yet.
pub open spec fn unknown_drive() -> Drive {
    Drive {
        access_token: None,
        refresh_token: None,
        token_expiry: 0,
        client_id: None,
        client_secret: None,
        status: Status {
            state: SyncStatusKind::Disconnected,
            message: Seq::empty(),
            last_synced: None,
            files_synced: 0,
        },
        changes_token: None,
        files_synced: 0,
        connecting: false,
    }
}

/// The connection with its status set to another stage and message.
pub open spec fn with_status(d: Drive, state: SyncStatusKind, message: Seq<char>) -> Drive {
    Drive { status: Status { state, message, ..d.status }, ..d }
}

/// The connection with the credentials of an OAuth client.
pub open spec fn with_credentials(d: Drive, id: Seq<char>, secret: Seq<char>) -> Drive {
    Drive { client_id: Some(id), client_secret: Some(secret), ..d }
}

/// The connection after it was given up. The credentials stay, and so does the count of files.
pub open spec fn disconnected(d: Drive) -> Drive {
    Drive {
        access_token: None,
        refresh_token: None,
        token_expiry: 0,
        changes_token: None,
        status: Status {
            state: SyncStatusKind::Disconnected,
            message: "Disconnected"@,
            last_synced: None,
            files_synced: 0,
        },
        ..d
    }
}

impl Default for GDriveState {
    /// A connection of which nothing is known yet.
    fn default() -> (res: Self)
        ensures
            res@ == unknown_drive(),
    {
        GDriveState {
            access_token: None,
            refresh_token: None,
            token_expiry: 0,
            client_id: None,
            client_secret: None,
            status: SyncStatus::default(),
            changes_token: None,
            files_synced: 0,
            connecting: false,
        }
    }
}

impl GDriveState {
    /// Moves on to another stage.
    pub fn set_status(&mut self, state: SyncStatusKind, message: String)
        ensures
            final(self)@ == with_status(old(self)@, state, message@),
    {
        self.status.state = state;
        self.status.message = message;
    }
}

/// Keeps the credentials of the user's OAuth client.
pub fn cmd_gdrive_set_credentials(
    drive: &mut GDriveState,
    client_id: String,
    client_secret: String,
) -> (res: Result<bool, String>)
    ensures
        final(drive)@ == with_credentials(old(drive)@, client_id@, client_secret@),
        res == Ok::<bool, String>(true),
{
    drive.client_id = Some(client_id);
    drive.client_secret = Some(client_secret);
    Ok(true)
}

/// Gives the connection up.
pub fn cmd_gdrive_disconnect(drive: &mut GDriveState) -> (res: Result<bool, String>)
    ensures
        final(drive)@ == disconnected(old(drive)@),
        res == Ok::<bool, String>(true),
{
    drive.access_token = None;
    drive.refresh_token = None;
    drive.token_expiry = 0;
    drive.changes_token = None;
    drive.status.state = SyncStatusKind::Disconnected;
    drive.status.message = "Disconnected".to_owned();
    drive.status.last_synced = None;
    drive.status.files_synced = 0;
    Ok(true)
}

/// The stage that the synchronisation is in.
pub fn cmd_gdrive_sync_status(drive: &GDriveState) -> (res: Result<SyncStatus, String>)
    ensures
        res matches Ok(status) && status@ == drive@.status,
{
    Ok(drive.status.clone())
}

/// A change of stage changes the stage and the message; credentials are set as they are given;
/// and nothing else changes with either.
pub proof fn law_stages_and_credentials(
    d: Drive,
    stage: SyncStatusKind,
    message: Seq<char>,
    id: Seq<char>,
    secret: Seq<char>,
)
    ensures
        ({
            let e = with_status(d, stage, message);
            &&& e.status.state == stage
            &&& e.status.message == message
            &&& e.status.last_synced == d.status.last_synced
            &&& e.status.files_synced == d.status.files_synced
            &&& e == (Drive { status: e.status, ..d })
        }),
        with_credentials(d, id, secret) == (Drive {
            client_id: Some(id),
            client_secret: Some(secret),
            ..d
        }),
{
}

/// A connection that is given up has no tokens and no place to read on, and says so; it keeps
/// the credentials, the count of files, and whether a sign-in is under way.
pub proof fn law_giving_up_keeps_the_credentials(d: Drive)
    ensures
        ({
            let e = disconnected(d);
            &&& e.access_token is None
            &&& e.refresh_token is None
            &&& e.token_expiry == 0
            &&& e.changes_token is None
            &&& e.status.state == SyncStatusKind::Disconnected
            &&& e.status.message == "Disconnected"@
            &&& e.status.last_synced is None
            &&& e.status.files_synced == 0
            &&& e.client_id == d.client_id
            &&& e.client_secret == d.client_secret
            &&& e.files_synced == d.files_synced
            &&& e.connecting == d.connecting
        }),
{
}

/// The view of a connection holds every field as it is.
pub proof fn law_view_of_a_connection(s: GDriveState)
    ensures
        s.access_token matches Some(t) ==> s@.access_token == Some(t@),
        s.access_token is None ==> s@.access_token is None,
        s.refresh_token matches Some(t) ==> s@.refresh_token == Some(t@),
        s.refresh_token is None ==> s@.refresh_token is None,
        s.client_id matches Some(t) ==> s@.client_id == Some(t@),
        s.client_id is None ==> s@.client_id is None,
        s.client_secret matches Some(t) ==> s@.client_secret == Some(t@),
        s.client_secret is None ==> s@.client_secret is None,
        s.changes_token matches Some(t) ==> s@.changes_token == Some(t@),
        s.changes_token is None ==> s@.changes_token is None,
        s@.token_expiry == s.token_expiry,
        s@.status == s.status@,
        s@.files_synced == s.files_synced,
        s@.connecting == s.connecting,
{
}

/// Of a new connection nothing is known, and nothing is under way.
pub proof fn law_new_connection_knows_nothing()
    ensures
        ({
            let d = unknown_drive();
            &&& d.access_token is None && d.refresh_token is None && d.token_expiry == 0
            &&& d.client_id is None && d.client_secret is None && d.changes_token is None
            &&& d.status.state == SyncStatusKind::Disconnected && d.status.message.len() == 0
            &&& d.status.last_synced is None && d.status.files_synced == 0
            &&& d.files_synced == 0 && !d.connecting
        }),
{
}

} // verus!
