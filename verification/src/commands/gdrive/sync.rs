//! The background synchronisation: one look at the changes, and what comes of its files.
use vstd::prelude::*;

use crate::clock;
use crate::commands::gdrive::files::{ChangeFile, DriveChangeFile};
use crate::commands::gdrive::state;
use crate::commands::gdrive::state::{Drive, GDriveState};
use crate::models::{Event, Status, SyncEvent, SyncStatus, SyncStatusKind};
use crate::number;
use crate::pairs;
use crate::text;

verus! {

/// Where changes are listed.
pub const CHANGES_URL: &'static str = "https://www.googleapis.com/drive/v3/changes";

/// A change on Google Drive.
#[derive(Debug, PartialEq)]
pub struct DriveChange {
    pub file_id: Option<String>,
    pub file: Option<DriveChangeFile>,
    pub removed: Option<bool>,
}

/// What a `DriveChange` says.
pub struct Change {
    pub file_id: Option<Seq<char>>,
    pub file: Option<ChangeFile>,
    pub removed: Option<bool>,
}

impl View for DriveChange {
    type V = Change;

    open spec fn view(&self) -> Change {
        Change {
            file_id: self.file_id.deep_view(),
            file: self.file.deep_view(),
            removed: self.removed,
        }
    }
}

impl DeepView for DriveChange {
    type V = Change;

    open spec fn deep_view(&self) -> Change {
        self@
    }
}

/// A page of the list of changes.
#[derive(Debug, PartialEq)]
pub struct DriveChangesResponse {
    pub new_start_page_token: Option<String>,
    pub next_page_token: Option<String>,
    pub changes: Option<Vec<DriveChange>>,
}

/// The files to bring over, how many of them were dealt with, and where to read on afterwards.
#[derive(Debug, PartialEq)]
pub struct SyncBatch {
    pub pending_next_token: Option<String>,
    pub new_files: Vec<DriveChangeFile>,
    pub done: usize,
}

/// What a `SyncBatch` says.
pub struct Batch {
    pub pending_next_token: Option<Seq<char>>,
    pub new_files: Seq<ChangeFile>,
    pub done: nat,
}

impl View for SyncBatch {
    type V = Batch;

    open spec fn view(&self) -> Batch {
        Batch {
            pending_next_token: self.pending_next_token.deep_view(),
            new_files: self.new_files.deep_view(),
            done: self.done as nat,
        }
    }
}

/// A change brings a file that can be downloaded: it was not removed or thrown away, and is no
/// document of Google's own formats.
pub open spec fn brings_file(c: Change) -> bool {
    &&& c.removed != Some(true)
    &&& c.file is Some
    &&& c.file->0.trashed != Some(true)
    &&& !text::starts_with(c.file->0.entry.mime_type, "application/vnd.google-apps"@)
}

/// The files that changes bring, in their order.
pub open spec fn brought_files(changes: Seq<Change>) -> Seq<ChangeFile>
    decreases changes.len(),
{
    if changes.len() == 0 {
        Seq::empty()
    } else if brings_file(changes.last()) {
        brought_files(changes.drop_last()).push(changes.last().file->0)
    } else {
        brought_files(changes.drop_last())
    }
}

/// What a page of changes comes to.
pub open spec fn batch_of(
    new_start: Option<Seq<char>>,
    next: Option<Seq<char>>,
    changes: Option<Seq<Change>>,
) -> Batch {
    Batch {
        pending_next_token: if new_start is Some {
            new_start
        } else {
            next
        },
        new_files: match changes {
            Some(cs) => brought_files(cs),
            None => Seq::empty(),
        },
        done: 0,
    }
}

fn wanted(change: DriveChange) -> (res: Option<DriveChangeFile>)
    ensures
        res.deep_view() == if brings_file(change@) {
            change@.file
        } else {
            None
        },
{
    if let Some(true) = change.removed {
        return None;
    }
    match change.file {
        Some(file) => {
            if let Some(true) = file.trashed {
                return None;
            }
            if text::strip_prefix(
                file.mime_type.as_str(),
                "application/vnd.google-apps",
            ).is_some() {
                None
            } else {
                Some(file)
            }
        },
        None => None,
    }
}

impl SyncBatch {
    /// What a page of changes comes to.
    pub fn new(answer: DriveChangesResponse) -> (res: Self)
        ensures
            res@ == batch_of(
                answer.new_start_page_token.deep_view(),
                answer.next_page_token.deep_view(),
                answer.changes.deep_view(),
            ),
    {
        let pending_next_token = match answer.new_start_page_token {
            Some(t) => Some(t),
            None => answer.next_page_token,
        };
        let mut new_files: Vec<DriveChangeFile> = Vec::new();
        assert(new_files.deep_view() =~= Seq::empty());
        if let Some(changes) = answer.changes {
            let ghost all = changes.deep_view();
            let ghost listed = changes@;
            for change in it: changes
                invariant
                    it.seq() == listed,
                    all == Seq::new(listed.len(), |i: int| listed[i]@),
                    new_files.deep_view() == brought_files(all.take(it.index())),
            {
                let ghost before = new_files.deep_view();
                let ghost i = it.index();
                assert(all.take(i + 1).drop_last() =~= all.take(i));
                assert(all.take(i + 1).last() == change@);
                if let Some(file) = wanted(change) {
                    new_files.push(file);
                    assert(new_files.deep_view() =~= before.push(file@));
                }
            }
            assert(all.take(all.len() as int) =~= all);
        }
        SyncBatch { pending_next_token, new_files, done: 0 }
    }
}

/// The form that asks for the changes from a page token on.
pub fn changes_params(page_token: &str) -> (res: Vec<(String, String)>)
    ensures
        res.deep_view() == seq![
            ("pageToken"@, page_token@),
            (
                "fields"@,
                "newStartPageToken,nextPageToken,changes(fileId,removed,file(id,name,mimeType,size,modifiedTime,parents,trashed))"@,
            ),
            ("includeRemoved"@, "false"@),
            ("spaces"@, "drive"@),
        ],
{
    let mut form = pairs::no_pairs();
    pairs::add_pair(&mut form, "pageToken", page_token.to_owned());
    pairs::add_pair(
        &mut form,
        "fields",
        "newStartPageToken,nextPageToken,changes(fileId,removed,file(id,name,mimeType,size,modifiedTime,parents,trashed))".to_owned(),
    );
    pairs::add_pair(&mut form, "includeRemoved", "false".to_owned());
    pairs::add_pair(&mut form, "spaces", "drive".to_owned());
    assert(form.deep_view() =~= seq![
        ("pageToken"@, page_token@),
        (
            "fields"@,
            "newStartPageToken,nextPageToken,changes(fileId,removed,file(id,name,mimeType,size,modifiedTime,parents,trashed))"@,
        ),
        ("includeRemoved"@, "false"@),
        ("spaces"@, "drive"@),
    ]);
    form
}

/// The connection after a file was brought over, or was not.
pub open spec fn after_file(d: Drive, synced: bool) -> Drive {
    if synced {
        Drive { files_synced: ((d.files_synced + 1) % 0x1_0000_0000_0000_0000) as u64, ..d }
    } else {
        d
    }
}

/// What is reported of a file.
pub open spec fn file_event(name: Seq<char>, outcome: Result<(), String>) -> Event {
    match outcome {
        Ok(_) => Event {
            event_type: "file_synced"@,
            file_name: Some(name),
            message: "Successfully synced '"@ + name + "'"@,
        },
        Err(e) => Event {
            event_type: "error"@,
            file_name: Some(name),
            message: "Failed to sync '"@ + name + "': "@ + e@,
        },
    }
}

/// The connection once a batch was dealt with: the changes are read on behind it.
pub open spec fn read_on(d: Drive, token: Option<Seq<char>>) -> Drive {
    if token is Some {
        Drive { changes_token: token, ..d }
    } else {
        d
    }
}

/// What a look at the changes is summed up with.
pub open spec fn tick_summary(new_files: nat) -> Seq<char> {
    if new_files == 0 {
        "Up to date"@
    } else {
        number::decimal(new_files) + " file(s) synced"@
    }
}

/// The connection at the end of a look at the changes.
pub open spec fn after_tick(d: Drive, new_files: nat, now: Seq<char>) -> Drive {
    Drive {
        status: Status {
            state: SyncStatusKind::Connected,
            message: tick_summary(new_files),
            last_synced: Some(now),
            files_synced: d.files_synced,
        },
        ..d
    }
}

impl GDriveState {
    /// Begins a look at the changes: the answer is where to read on.
    pub fn begin_tick(&mut self) -> (res: Result<String, String>)
        ensures
            match old(self)@.changes_token {
                Some(t) => (res matches Ok(p) && p@ == t) && final(self)@ == state::with_status(
                    old(self)@,
                    SyncStatusKind::Syncing,
                    "Checking for changes\u{2026}"@,
                ),
                None => (res matches Err(e) && e@ == "No changes page token"@) && final(self)@
                    == old(self)@,
            },
    {
        let page_token = match &self.changes_token {
            Some(t) => t.clone(),
            None => {
                return Err("No changes page token".to_owned());
            },
        };
        self.set_status(SyncStatusKind::Syncing, "Checking for changes\u{2026}".to_owned());
        Ok(page_token)
    }

    /// What to show while a file is brought over.
    pub fn file_status(&self, file: &DriveChangeFile) -> (res: SyncStatus)
        ensures
            res@ == (Status {
                state: SyncStatusKind::Syncing,
                message: "Downloading '"@ + file@.entry.name + "'\u{2026}"@,
                last_synced: self@.status.last_synced,
                files_synced: self@.files_synced,
            }),
    {
        let mut message = "Downloading '".to_owned();
        message.append(file.name.as_str());
        message.append("'\u{2026}");
        SyncStatus {
            state: SyncStatusKind::Syncing,
            message,
            last_synced: self.status.last_synced.clone(),
            files_synced: self.files_synced,
        }
    }
}

impl SyncBatch {
    /// The file that is next.
    pub fn current(&self) -> (res: Option<&DriveChangeFile>)
        ensures
            match res {
                Some(f) => self@.done < self@.new_files.len() && f@
                    == self@.new_files[self@.done as int],
                None => self@.done >= self@.new_files.len(),
            },
    {
        if self.done < self.new_files.len() {
            Some(&self.new_files[self.done])
        } else {
            None
        }
    }

    /// Goes on to the file behind the next one, counts that if it was brought over, and says
    /// what to report of it either way.
    pub fn on_file(&mut self, drive: &mut GDriveState, outcome: Result<(), String>) -> (res:
        SyncEvent)
        requires
            old(self)@.done < old(self)@.new_files.len(),
        ensures
            final(self)@ == (Batch { done: old(self)@.done + 1, ..old(self)@ }),
            final(drive)@ == after_file(old(drive)@, outcome is Ok),
            res@ == file_event(old(self)@.new_files[old(self)@.done as int].entry.name, outcome),
    {
        let file = &self.new_files[self.done];
        let event = match outcome {
            Ok(_) => {
                drive.files_synced = drive.files_synced.wrapping_add(1);
                let mut message = "Successfully synced '".to_owned();
                message.append(file.name.as_str());
                message.append("'");
                SyncEvent {
                    event_type: "file_synced".to_owned(),
                    file_name: Some(file.name.clone()),
                    message,
                }
            },
            Err(e) => {
                let mut message = "Failed to sync '".to_owned();
                message.append(file.name.as_str());
                message.append("': ");
                message.append(e.as_str());
                SyncEvent {
                    event_type: "error".to_owned(),
                    file_name: Some(file.name.clone()),
                    message,
                }
            },
        };
        assert(self.done < self.new_files.len());
        self.done = self.done + 1;
        event
    }

    /// Reads on behind the files once each was dealt with. The answer is whether there is
    /// something to write to the store.
    pub fn advance(&self, drive: &mut GDriveState) -> (res: bool)
        requires
            self@.done >= self@.new_files.len(),
        ensures
            final(drive)@ == read_on(old(drive)@, self@.pending_next_token),
            res == (self@.pending_next_token is Some),
    {
        match &self.pending_next_token {
            Some(t) => {
                drive.changes_token = Some(t.clone());
                true
            },
            None => false,
        }
    }

    /// Ends the look at the changes at the time `now`.
    pub fn finish_at(self, drive: &mut GDriveState, now: String)
        ensures
            final(drive)@ == after_tick(old(drive)@, self@.new_files.len(), now@),
    {
        let new_files: usize = self.new_files.len();
        drive.status.state = SyncStatusKind::Connected;
        drive.status.message = if new_files == 0 {
            "Up to date".to_owned()
        } else {
            let mut message = number::write_decimal(new_files as u128);
            message.append(" file(s) synced");
            message
        };
        drive.status.last_synced = Some(now);
        drive.status.files_synced = drive.files_synced;
    }

    /// Ends the look at the changes.
    pub fn finish(self, drive: &mut GDriveState)
        ensures
            exists|now: Seq<char>|
                clock::is_time(now) && final(drive)@ == #[trigger] after_tick(
                    old(drive)@,
                    self@.new_files.len(),
                    now,
                ),
    {
        self.finish_at(drive, clock::time_of_day())
    }
}

/// Where a file is downloaded from.
pub open spec fn download_address(id: Seq<char>) -> Seq<char> {
    "https://www.googleapis.com/drive/v3/files/"@ + id + "?alt=media"@
}

/// What a file is called while it is brought over.
pub open spec fn temp_name(id: Seq<char>, stamp: nat, name: Seq<char>) -> Seq<char> {
    "gdrive_sync_"@ + id + "_"@ + number::decimal(stamp) + "_"@ + text::replace_char(
        name,
        '/',
        '_',
    )
}

/// What may go wrong with a file.
#[derive(Debug, PartialEq)]
pub enum FileFailure {
    /// The request failed.
    Request(String),
    /// The answer was not a success.
    Status(String),
    /// The path of the temporary file is no text.
    Path(String),
    /// The task that was sending came to no end of its own.
    TaskLost(String),
    /// Anything else.
    Plain(String),
}

/// What a failure is reported with.
pub open spec fn file_failure_message(failure: FileFailure) -> Seq<char> {
    match failure {
        FileFailure::Request(e) => "Download request failed: "@ + e@,
        FileFailure::Status(e) => "Google Drive returned "@ + e@,
        FileFailure::Path(e) => "Temp path is not valid UTF-8: "@ + e@,
        FileFailure::TaskLost(e) => "Task join error: "@ + e@,
        FileFailure::Plain(e) => e@,
    }
}

impl FileFailure {
    /// What the failure is reported with.
    pub fn message(self) -> (res: String)
        ensures
            res@ == file_failure_message(self),
    {
        match self {
            FileFailure::Request(e) => "Download request failed: ".to_owned().concat(e.as_str()),
            FileFailure::Status(e) => "Google Drive returned ".to_owned().concat(e.as_str()),
            FileFailure::Path(e) => "Temp path is not valid UTF-8: ".to_owned().concat(e.as_str()),
            FileFailure::TaskLost(e) => "Task join error: ".to_owned().concat(e.as_str()),
            FileFailure::Plain(e) => e,
        }
    }
}

/// What follows from the answer to the request for a file.
pub fn on_download_answer(success: bool, status: String) -> (res: Result<(), FileFailure>)
    ensures
        success ==> res is Ok,
        !success ==> (res matches Err(FileFailure::Status(e)) && e@ == status@),
{
    if success {
        Ok(())
    } else {
        Err(FileFailure::Status(status))
    }
}

/// The path of the temporary file as text; `shown` is what it looks like where it is none.
pub fn on_temp_path(path: Option<String>, shown: String) -> (res: Result<String, FileFailure>)
    ensures
        match path {
            Some(p) => res matches Ok(t) && t@ == p@,
            None => res matches Err(FileFailure::Path(e)) && e@ == shown@,
        },
{
    match path {
        Some(p) => Ok(p),
        None => Err(FileFailure::Path(shown)),
    }
}

/// What to do with a file that was downloaded.
#[derive(Debug, Clone, Copy, PartialEq, Eq, Structural)]
pub enum DeliverStep {
    /// Nothing: there is no Telegram client, and the file counts as brought over.
    Done,
    /// Send it to the home folder.
    Upload,
}

/// What to do with a file that was downloaded.
pub fn on_downloaded(connected: bool) -> (res: DeliverStep)
    ensures
        res == if connected {
            DeliverStep::Upload
        } else {
            DeliverStep::Done
        },
{
    if connected {
        DeliverStep::Upload
    } else {
        DeliverStep::Done
    }
}

impl DriveChangeFile {
    /// Where the file is downloaded from.
    pub fn download_url(&self) -> (res: String)
        ensures
            res@ == download_address(self@.entry.id),
    {
        let mut url = "https://www.googleapis.com/drive/v3/files/".to_owned();
        url.append(self.id.as_str());
        url.append("?alt=media");
        url
    }

    /// What the file is called while it is brought over, with a given time stamp.
    pub fn temp_name_at(&self, stamp: u128) -> (res: String)
        ensures
            res@ == temp_name(self@.entry.id, stamp as nat, self@.entry.name),
    {
        let mut name = "gdrive_sync_".to_owned();
        let stamp_text = number::write_decimal(stamp);
        let safe = text::replace(self.name.as_str(), '/', '_');
        name.append(self.id.as_str());
        name.append("_");
        name.append(stamp_text.as_str());
        name.append("_");
        name.append(safe.as_str());
        name
    }

    /// What the file is called while it is brought over.
    pub fn temp_name(&self) -> (res: String)
        ensures
            exists|stamp: u128|
                res@ == #[trigger] temp_name(self@.entry.id, stamp as nat, self@.entry.name),
    {
        let stamp = clock::unix_nanos();
        self.temp_name_at(stamp)
    }
}

/// The connection after the files of a batch, each of which was brought over or was not.
pub open spec fn after_files(d: Drive, synced: Seq<bool>) -> Drive
    decreases synced.len(),
{
    if synced.len() == 0 {
        d
    } else {
        after_file(after_files(d, synced.drop_last()), synced.last())
    }
}

/// How many of a batch were brought over.
pub open spec fn count_synced(synced: Seq<bool>) -> nat
    decreases synced.len(),
{
    if synced.len() == 0 {
        0
    } else {
        count_synced(synced.drop_last()) + if synced.last() {
            1nat
        } else {
            0nat
        }
    }
}

/// The place to read on stays where it is while the files of a batch are dealt with, so that
/// none of them is lost if that is cut short; only the count of files changes.
pub proof fn law_page_token_waits_for_the_batch(d: Drive, synced: Seq<bool>)
    ensures
        after_files(d, synced).changes_token == d.changes_token,
        after_files(d, synced) == (Drive {
            files_synced: ((d.files_synced + count_synced(synced)) % 0x1_0000_0000_0000_0000)
                as u64,
            ..d
        }),
    decreases synced.len(),
{
    if synced.len() > 0 {
        law_page_token_waits_for_the_batch(d, synced.drop_last());
    }
}

/// Once the files of a batch were dealt with and the look at the changes is over, the changes
/// are read on behind the batch, the files that were brought over are counted, and the
/// credentials and tokens are as before.
pub proof fn law_tick_reads_on_behind_the_batch(
    d: Drive,
    b: Batch,
    synced: Seq<bool>,
    now: Seq<char>,
)
    requires
        synced.len() == b.new_files.len(),
    ensures
        ({
            let e = after_tick(
                read_on(after_files(d, synced), b.pending_next_token),
                b.new_files.len(),
                now,
            );
            &&& e.changes_token == if b.pending_next_token is Some {
                b.pending_next_token
            } else {
                d.changes_token
            }
            &&& e.files_synced == (d.files_synced + count_synced(synced))
                % 0x1_0000_0000_0000_0000
            &&& e.status.files_synced == e.files_synced
            &&& e.status.state == SyncStatusKind::Connected
            &&& e == (Drive {
                changes_token: e.changes_token,
                files_synced: e.files_synced,
                status: e.status,
                ..d
            })
        }),
{
    law_page_token_waits_for_the_batch(d, synced);
}

/// Every file in a batch comes out of a change that brings one, and every such change has its
/// file in the batch.
pub proof fn law_batch_holds_what_changes_bring(changes: Seq<Change>)
    ensures
        forall|i: int|
            0 <= i < changes.len() && brings_file(#[trigger] changes[i]) ==> brought_files(
                changes,
            ).contains(changes[i].file->0),
        forall|f: ChangeFile| #[trigger]
            brought_files(changes).contains(f) ==> exists|i: int|
                0 <= i < changes.len() && brings_file(#[trigger] changes[i]) && changes[i].file
                    == Some(f),
        brought_files(changes).len() <= changes.len(),
    decreases changes.len(),
{
    if changes.len() > 0 {
        let front = changes.drop_last();
        let last = changes.last();
        law_batch_holds_what_changes_bring(front);
        let before = brought_files(front);
        let after = brought_files(changes);
        assert forall|i: int|
            0 <= i < changes.len() && brings_file(#[trigger] changes[i]) implies after.contains(
            changes[i].file->0,
        ) by {
            if i < front.len() {
                assert(front[i] == changes[i]);
                assert(before.contains(front[i].file->0));
                let k = choose|k: int| 0 <= k < before.len() && before[k] == front[i].file->0;
                assert(after[k] == before[k]);
            } else {
                assert(after[after.len() - 1] == last.file->0);
            }
        }
        assert forall|f: ChangeFile| #[trigger] after.contains(f) implies exists|i: int|
            0 <= i < changes.len() && brings_file(#[trigger] changes[i]) && changes[i].file
                == Some(f) by {
            let k = choose|k: int| 0 <= k < after.len() && after[k] == f;
            if k < before.len() {
                assert(before[k] == f);
                assert(before.contains(f));
                let i = choose|i: int|
                    0 <= i < front.len() && brings_file(#[trigger] front[i]) && front[i].file
                        == Some(f);
                assert(changes[i] == front[i]);
            } else {
                assert(changes[changes.len() - 1] == last);
            }
        }
    }
}

/// The name of a temporary file stays within its directory: it holds no slash, if the
/// identifier of the file holds none.
pub proof fn law_temp_name_has_no_slash(id: Seq<char>, stamp: nat, name: Seq<char>)
    requires
        forall|i: int| 0 <= i < id.len() ==> #[trigger] id[i] != '/',
    ensures
        forall|i: int|
            0 <= i < temp_name(id, stamp, name).len() ==> #[trigger] temp_name(id, stamp, name)[i]
                != '/',
{
    reveal_strlit("gdrive_sync_");
    reveal_strlit("_");
    number::lemma_decimal(stamp);
    let d = number::decimal(stamp);
    let a = "gdrive_sync_"@;
    let safe = text::replace_char(name, '/', '_');
    let t = temp_name(id, stamp, name);
    let p1 = a.len() as int;
    let p2 = p1 + id.len();
    let p3 = p2 + 1;
    let p4 = p3 + d.len();
    let p5 = p4 + 1;
    assert forall|i: int| 0 <= i < t.len() implies #[trigger] t[i] != '/' by {
        if i < p1 {
            assert(t[i] == a[i]);
        } else if i < p2 {
            assert(t[i] == id[i - p1]);
        } else if i < p3 {
            assert(t[i] == "_"@[0]);
        } else if i < p4 {
            assert(t[i] == d[i - p3]);
            assert('0' <= d[i - p3] <= '9');
        } else if i < p5 {
            assert(t[i] == "_"@[0]);
        } else {
            assert(t[i] == safe[i - p5]);
        }
    }
}

/// Two revisions of a file never share a temporary name: where the stamps differ, so do the
/// names.
pub proof fn law_temp_names_differ(
    id: Seq<char>,
    stamp1: nat,
    name1: Seq<char>,
    stamp2: nat,
    name2: Seq<char>,
)
    requires
        stamp1 != stamp2,
    ensures
        temp_name(id, stamp1, name1) != temp_name(id, stamp2, name2),
{
    if temp_name(id, stamp1, name1) == temp_name(id, stamp2, name2) {
        let d1 = number::decimal(stamp1);
        let d2 = number::decimal(stamp2);
        number::lemma_decimal(stamp1);
        number::lemma_decimal(stamp2);
        lemma_stamp_ends(id, stamp1, name1);
        lemma_stamp_ends(id, stamp2, name2);
        if d1.len() < d2.len() {
            assert('0' <= d2[d1.len() as int] <= '9');
        }
        if d2.len() < d1.len() {
            assert('0' <= d1[d2.len() as int] <= '9');
        }
        assert(d1 =~= d2);
    }
}

proof fn lemma_stamp_ends(id: Seq<char>, stamp: nat, name: Seq<char>)
    ensures
        ({
            let t = temp_name(id, stamp, name);
            let d = number::decimal(stamp);
            let at = "gdrive_sync_"@.len() + id.len() + "_"@.len();
            &&& at + d.len() < t.len()
            &&& forall|i: int| 0 <= i < d.len() ==> #[trigger] d[i] == t[at + i]
            &&& t[(at + d.len()) as int] == '_'
        }),
{
    reveal_strlit("_");
}

/// A change has its file in the batch exactly if it was not removed, the file is there and not
/// thrown away, and its type does not begin with `application/vnd.google-apps`. The files are in
/// the order of the changes, one for each.
pub proof fn law_batch_has_every_downloadable_file(changes: Seq<Change>)
    ensures
        brought_files(changes) == changes.filter_map(
            |c: Change|
                if c.removed == Some(true) || c.file is None || c.file->0.trashed == Some(true)
                    || "application/vnd.google-apps"@.is_prefix_of(c.file->0.entry.mime_type) {
                    None
                } else {
                    c.file
                },
        ),
    decreases changes.len(),
{
    let pick = |c: Change|
        if c.removed == Some(true) || c.file is None || c.file->0.trashed == Some(true)
            || "application/vnd.google-apps"@.is_prefix_of(c.file->0.entry.mime_type) {
            None
        } else {
            c.file
        };
    if changes.len() > 0 {
        let c = changes.last();
        law_batch_has_every_downloadable_file(changes.drop_last());
        text::law_occurrence_agrees_character_by_character(
            c.file->0.entry.mime_type,
            0,
            "application/vnd.google-apps"@,
        );
        let before = changes.drop_last().filter_map(pick);
        if pick(c) is Some {
            assert(before + seq![pick(c)->0] =~= before.push(pick(c)->0));
        }
        assert(brought_files(changes) =~= changes.filter_map(pick));
    } else {
        assert(brought_files(changes) =~= changes.filter_map(pick));
    }
}

/// A change whose fields say that its file can be downloaded has it in the batch, wherever it
/// stands among the changes; one that is of Google's own formats, removed or thrown away adds
/// nothing.
pub proof fn law_one_more_change_adds_its_file(changes: Seq<Change>, c: Change, f: ChangeFile)
    requires
        c.file == Some(f),
    ensures
        c.removed != Some(true) && f.trashed != Some(true)
            && !"application/vnd.google-apps"@.is_prefix_of(f.entry.mime_type) ==> brought_files(
            changes.push(c),
        ) == brought_files(changes).push(f),
        c.removed == Some(true) ==> brought_files(changes.push(c)) == brought_files(changes),
        f.trashed == Some(true) ==> brought_files(changes.push(c)) == brought_files(changes),
        "application/vnd.google-apps"@.is_prefix_of(f.entry.mime_type) ==> brought_files(
            changes.push(c),
        ) == brought_files(changes),
        brought_files(Seq::empty()).len() == 0,
{
    assert(changes.push(c).drop_last() =~= changes);
    text::law_occurrence_agrees_character_by_character(
        f.entry.mime_type,
        0,
        "application/vnd.google-apps"@,
    );
}

/// A page of changes is read on from its new start token if it has one, else from the next page.
/// None of its files counts as dealt with yet.
pub proof fn law_batch_reads_on_from_the_newest_token(
    start: Seq<char>,
    next: Option<Seq<char>>,
    changes: Option<Seq<Change>>,
)
    ensures
        batch_of(Some(start), next, changes).pending_next_token == Some(start),
        batch_of(None, next, changes).pending_next_token == next,
        forall|s: Option<Seq<char>>| #[trigger]
            batch_of(s, next, changes).done == 0 && (changes matches Some(cs) ==> batch_of(
                s,
                next,
                changes,
            ).new_files == brought_files(cs)),
        forall|s: Option<Seq<char>>| #[trigger]
            batch_of(s, next, None).new_files.len() == 0,
{
}

/// A file that was brought over is counted with one, and one that was not with none; nothing
/// else of the connection changes.
pub proof fn law_each_file_counts_once(d: Drive)
    ensures
        d.files_synced < u64::MAX ==> after_file(d, true) == (Drive {
            files_synced: (d.files_synced + 1) as u64,
            ..d
        }),
        d.files_synced == u64::MAX ==> after_file(d, true) == (Drive { files_synced: 0, ..d }),
        after_file(d, false) == d,
        read_on(d, None) == d,
        forall|t: Seq<char>| #[trigger]
            read_on(d, Some(t)) == (Drive { changes_token: Some(t), ..d }),
{
}

/// How many of a batch were brought over is how many of the outcomes say so.
pub proof fn law_outcomes_are_counted(synced: Seq<bool>)
    ensures
        count_synced(synced) == synced.filter(|b: bool| b).len(),
    decreases synced.len(),
{
    reveal(Seq::filter);
    if synced.len() > 0 {
        law_outcomes_are_counted(synced.drop_last());
    }
}

/// What is reported of a file names it, and says whether it was brought over or why not.
pub proof fn law_file_events(name: Seq<char>, error: String)
    ensures
        file_event(name, Ok(())) == (Event {
            event_type: "file_synced"@,
            file_name: Some(name),
            message: "Successfully synced '"@ + name + "'"@,
        }),
        file_event(name, Err(error)) == (Event {
            event_type: "error"@,
            file_name: Some(name),
            message: "Failed to sync '"@ + name + "': "@ + error@,
        }),
{
}

/// A look at the changes ends connected, with the time, the count of files, and how many there
/// were; tokens, credentials and the place to read on stay.
pub proof fn law_end_of_a_look(d: Drive, new_files: nat, now: Seq<char>)
    ensures
        ({
            let e = after_tick(d, new_files, now);
            &&& e.status.state == SyncStatusKind::Connected
            &&& e.status.last_synced == Some(now)
            &&& e.status.files_synced == d.files_synced
            &&& new_files == 0 ==> e.status.message == "Up to date"@
            &&& new_files > 0 ==> e.status.message == number::decimal(new_files)
                + " file(s) synced"@
            &&& e == (Drive { status: e.status, ..d })
        }),
{
}

/// A file is downloaded from its own address, and changes are listed at theirs. A temporary name
/// carries the identifier, the stamp and, with slashes turned into underscores, the name.
pub proof fn law_addresses_and_names_of_a_file(id: Seq<char>, stamp: nat, name: Seq<char>)
    ensures
        download_address(id) == "https://www.googleapis.com/drive/v3/files/"@ + id
            + "?alt=media"@,
        CHANGES_URL@ == "https://www.googleapis.com/drive/v3/changes"@,
        ({
            let front = "gdrive_sync_"@ + id + "_"@ + number::decimal(stamp) + "_"@;
            let t = temp_name(id, stamp, name);
            &&& front.is_prefix_of(t)
            &&& t.len() == front.len() + name.len()
            &&& forall|i: int|
                0 <= i < name.len() ==> t[front.len() + i] == if #[trigger] name[i] == '/' {
                    '_'
                } else {
                    name[i]
                }
        }),
{
    let front = "gdrive_sync_"@ + id + "_"@ + number::decimal(stamp) + "_"@;
    let t = temp_name(id, stamp, name);
    let safe = text::replace_char(name, '/', '_');
    assert(t =~= front + safe);
    assert forall|i: int| 0 <= i < name.len() implies t[front.len() + i] == if #[trigger] name[i]
        == '/' {
        '_'
    } else {
        name[i]
    } by {
        assert(t[front.len() + i] == safe[i]);
    }
}

/// What goes wrong with a file is reported with what it was, and with the error as it came.
pub proof fn law_failures_of_a_file_are_named(e: String)
    ensures
        file_failure_message(FileFailure::Request(e)) == "Download request failed: "@ + e@,
        file_failure_message(FileFailure::Status(e)) == "Google Drive returned "@ + e@,
        file_failure_message(FileFailure::Path(e)) == "Temp path is not valid UTF-8: "@ + e@,
        file_failure_message(FileFailure::TaskLost(e)) == "Task join error: "@ + e@,
        file_failure_message(FileFailure::Plain(e)) == e@,
{
}

/// The views of changes and batches hold every field as it is.
pub proof fn law_views_of_changes(c: DriveChange, b: SyncBatch)
    ensures
        c@.removed == c.removed,
        c.file matches Some(f) ==> c@.file == Some(f@),
        c.file is None ==> c@.file is None,
        c.file_id matches Some(t) ==> c@.file_id == Some(t@),
        b@.done == b.done,
        b@.new_files.len() == b.new_files@.len(),
        forall|i: int|
            0 <= i < b.new_files@.len() ==> #[trigger] b@.new_files[i] == b.new_files@[i]@,
        b.pending_next_token matches Some(t) ==> b@.pending_next_token == Some(t@),
        b.pending_next_token is None ==> b@.pending_next_token is None,
{
}

} // verus!
