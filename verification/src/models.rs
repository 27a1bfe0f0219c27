//! The records that the commands exchange with the user interface and the remote services.
use vstd::prelude::*;

verus! {

/// A folder of the drive, which is a channel.
#[derive(Debug, PartialEq)]
pub struct FolderMetadata {
    pub id: i64,
    pub name: String,
    pub parent_id: Option<i64>,
}

/// What a `FolderMetadata` says.
pub struct Folder {
    pub id: i64,
    pub name: Seq<char>,
    pub parent_id: Option<i64>,
}

impl View for FolderMetadata {
    type V = Folder;

    open spec fn view(&self) -> Folder {
        Folder { id: self.id, name: self.name@, parent_id: self.parent_id }
    }
}

impl DeepView for FolderMetadata {
    type V = Folder;

    open spec fn deep_view(&self) -> Folder {
        self@
    }
}

/// A file of the drive, which is a message with an attachment.
#[derive(Debug, PartialEq)]
pub struct FileMetadata {
    pub id: i64,
    pub folder_id: Option<i64>,
    pub name: String,
    pub size: u64,
    pub mime_type: Option<String>,
    pub file_ext: Option<String>,
    pub created_at: String,
    pub icon_type: String,
}

/// What a `FileMetadata` says.
pub struct FileEntry {
    pub id: i64,
    pub folder_id: Option<i64>,
    pub name: Seq<char>,
    pub size: u64,
    pub mime_type: Option<Seq<char>>,
    pub file_ext: Option<Seq<char>>,
    pub created_at: Seq<char>,
    pub icon_type: Seq<char>,
}

impl View for FileMetadata {
    type V = FileEntry;

    open spec fn view(&self) -> FileEntry {
        FileEntry {
            id: self.id,
            folder_id: self.folder_id,
            name: self.name@,
            size: self.size,
            mime_type: self.mime_type.deep_view(),
            file_ext: self.file_ext.deep_view(),
            created_at: self.created_at@,
            icon_type: self.icon_type@,
        }
    }
}

impl DeepView for FileMetadata {
    type V = FileEntry;

    open spec fn deep_view(&self) -> FileEntry {
        self@
    }
}

/// What is attached to a message.
#[derive(Debug, PartialEq)]
pub enum Media {
    Document { name: String, size: i64, mime_type: Option<String> },
    Photo,
    Other,
}

/// How far a transfer has come.
#[derive(Debug, PartialEq)]
pub struct ProgressPayload {
    pub id: String,
    pub percent: u8,
}

/// What a `ProgressPayload` says.
pub struct Progress {
    pub id: Seq<char>,
    pub percent: u8,
}

impl View for ProgressPayload {
    type V = Progress;

    open spec fn view(&self) -> Progress {
        Progress { id: self.id@, percent: self.percent }
    }
}

impl DeepView for ProgressPayload {
    type V = Progress;

    open spec fn deep_view(&self) -> Progress {
        self@
    }
}

/// The stages of the connection to Google Drive.
#[derive(Debug, Clone, Copy, PartialEq, Eq, Structural)]
pub enum SyncStatusKind {
    Disconnected,
    Connecting,
    Connected,
    Syncing,
    Error,
}

/// The state of the synchronisation, as the user interface shows it.
#[derive(Debug, PartialEq)]
pub struct SyncStatus {
    pub state: SyncStatusKind,
    pub message: String,
    pub last_synced: Option<String>,
    pub files_synced: u64,
}

/// What a `SyncStatus` says.
pub struct Status {
    pub state: SyncStatusKind,
    pub message: Seq<char>,
    pub last_synced: Option<Seq<char>>,
    pub files_synced: u64,
}

impl View for SyncStatus {
    type V = Status;

    open spec fn view(&self) -> Status {
        Status {
            state: self.state,
            message: self.message@,
            last_synced: self.last_synced.deep_view(),
            files_synced: self.files_synced,
        }
    }
}

impl DeepView for SyncStatus {
    type V = Status;

    open spec fn deep_view(&self) -> Status {
        self@
    }
}

impl Clone for SyncStatus {
    fn clone(&self) -> (res: Self)
        ensures
            res@ == self@,
    {
        SyncStatus {
            state: self.state,
            message: self.message.clone(),
            last_synced: self.last_synced.clone(),
            files_synced: self.files_synced,
        }
    }
}

impl Default for SyncStatus {
    /// Not connected, and nothing to report.
    fn default() -> (res: Self)
        ensures
            res@ == (Status {
                state: SyncStatusKind::Disconnected,
                message: Seq::empty(),
                last_synced: None,
                files_synced: 0,
            }),
    {
        SyncStatus {
            state: SyncStatusKind::Disconnected,
            message: String::new(),
            last_synced: None,
            files_synced: 0,
        }
    }
}

/// Something that happened during the synchronisation.
#[derive(Debug, PartialEq)]
pub struct SyncEvent {
    pub event_type: String,
    pub file_name: Option<String>,
    pub message: String,
}

/// What a `SyncEvent` says.
pub struct Event {
    pub event_type: Seq<char>,
    pub file_name: Option<Seq<char>>,
    pub message: Seq<char>,
}

impl View for SyncEvent {
    type V = Event;

    open spec fn view(&self) -> Event {
        Event {
            event_type: self.event_type@,
            file_name: self.file_name.deep_view(),
            message: self.message@,
        }
    }
}

impl DeepView for SyncEvent {
    type V = Event;

    open spec fn deep_view(&self) -> Event {
        self@
    }
}

/// A file on Google Drive.
#[derive(Debug, PartialEq)]
pub struct GDriveFile {
    pub id: String,
    pub name: String,
    pub mime_type: String,
    pub size: Option<String>,
    pub modified_time: Option<String>,
    pub parents: Option<Vec<String>>,
}

/// What a `GDriveFile` says.
pub struct DriveEntry {
    pub id: Seq<char>,
    pub name: Seq<char>,
    pub mime_type: Seq<char>,
    pub size: Option<Seq<char>>,
    pub modified_time: Option<Seq<char>>,
    pub parents: Option<Seq<Seq<char>>>,
}

impl View for GDriveFile {
    type V = DriveEntry;

    open spec fn view(&self) -> DriveEntry {
        DriveEntry {
            id: self.id@,
            name: self.name@,
            mime_type: self.mime_type@,
            size: self.size.deep_view(),
            modified_time: self.modified_time.deep_view(),
            parents: self.parents.deep_view(),
        }
    }
}

impl DeepView for GDriveFile {
    type V = DriveEntry;

    open spec fn deep_view(&self) -> DriveEntry {
        self@
    }
}

/// The views of folders and files hold every field as it is.
pub proof fn law_views_of_folders_and_files(d: FolderMetadata, f: FileMetadata)
    ensures
        d@ == (Folder { id: d.id, name: d.name@, parent_id: d.parent_id }),
        f@.id == f.id,
        f@.folder_id == f.folder_id,
        f@.name == f.name@,
        f@.size == f.size,
        f.mime_type matches Some(t) ==> f@.mime_type == Some(t@),
        f.mime_type is None ==> f@.mime_type is None,
        f.file_ext matches Some(t) ==> f@.file_ext == Some(t@),
        f.file_ext is None ==> f@.file_ext is None,
        f@.created_at == f.created_at@,
        f@.icon_type == f.icon_type@,
        d.deep_view() == d@,
        f.deep_view() == f@,
{
}

/// The views of what is shown and reported hold every field as it is.
pub proof fn law_views_of_reports(p: ProgressPayload, s: SyncStatus, e: SyncEvent)
    ensures
        p@ == (Progress { id: p.id@, percent: p.percent }),
        p.deep_view() == p@,
        s@.state == s.state,
        s@.message == s.message@,
        s.last_synced matches Some(t) ==> s@.last_synced == Some(t@),
        s.last_synced is None ==> s@.last_synced is None,
        s@.files_synced == s.files_synced,
        s.deep_view() == s@,
        e@.event_type == e.event_type@,
        e.file_name matches Some(t) ==> e@.file_name == Some(t@),
        e.file_name is None ==> e@.file_name is None,
        e@.message == e.message@,
        e.deep_view() == e@,
{
}

/// The view of a file on Google Drive holds every field as it is.
pub proof fn law_view_of_a_drive_file(f: GDriveFile)
    ensures
        f@.id == f.id@,
        f@.name == f.name@,
        f@.mime_type == f.mime_type@,
        f.size matches Some(t) ==> f@.size == Some(t@),
        f.size is None ==> f@.size is None,
        f.modified_time matches Some(t) ==> f@.modified_time == Some(t@),
        f.modified_time is None ==> f@.modified_time is None,
        f.parents is None ==> f@.parents is None,
        f.parents matches Some(ps) ==> f@.parents == Some(Seq::new(ps@.len(), |i: int| ps@[i]@)),
        f.deep_view() == f@,
{
    if let Some(ps) = f.parents {
        assert(f@.parents->0 =~= Seq::new(ps@.len(), |i: int| ps@[i]@));
    }
}

} // verus!
