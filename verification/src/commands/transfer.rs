//! Sending and receiving files, and what they cost of the daily allowance.
use vstd::prelude::*;

use crate::bandwidth;
use crate::bandwidth::{BandwidthManager, Ledger, TransferKind};
use crate::clock;
use crate::models::{Media, Progress, ProgressPayload};
use crate::percent;

verus! {

/// Above this size a finished upload is also reported as half done.
pub const LARGE_FILE: u64 = 10_485_760;

/// What a photo is counted as, its size not being known.
pub const PHOTO_SIZE: u64 = 1_048_576;

/// What a download without a client writes.
pub const MOCK_CONTENT: &'static str = "Mock Content";

/// A report for a transfer that asked to be reported on, which is one with an identifier.
pub open spec fn report(id: Seq<char>, percent: u8) -> Option<Progress> {
    if id.len() == 0 {
        None
    } else {
        Some(Progress { id, percent })
    }
}

fn make_report(id: &String, percent: u8) -> (res: Option<ProgressPayload>)
    ensures
        res.deep_view() == report(id@, percent),
{
    if id.as_str().is_empty() {
        None
    } else {
        Some(ProgressPayload { id: id.clone(), percent })
    }
}

/// The identifier of a transfer; empty where none is given.
pub open spec fn id_or_empty(id: Option<Seq<char>>) -> Seq<char> {
    match id {
        Some(id) => id,
        None => Seq::empty(),
    }
}

fn given_id(id: Option<String>) -> (res: String)
    ensures
        res@ == id_or_empty(id.deep_view()),
{
    match id {
        Some(id) => id,
        None => String::new(),
    }
}

/// An upload under way.
#[derive(Debug, PartialEq)]
pub struct Upload {
    pub id: String,
    pub size: u64,
}

/// What to do to send a file.
#[derive(Debug, PartialEq)]
pub enum UploadStep {
    /// Nothing: there is no client.
    Done(String),
    /// Send the file, and report that it has begun.
    Send { upload: Upload, progress: Option<ProgressPayload> },
}

/// How the sending of the bytes ended.
#[derive(Debug, PartialEq)]
pub enum UploadOutcome {
    Uploaded,
    Failed(String),
    /// The task that was sending came to no end of its own.
    TaskLost(String),
}

/// A transfer that is over: what to report, and what to say.
#[derive(Debug, PartialEq)]
pub struct Finished {
    pub progress: Vec<ProgressPayload>,
    pub message: String,
}

/// The reports at the end of an upload.
pub open spec fn upload_reports(id: Seq<char>, size: u64) -> Seq<Progress> {
    if id.len() == 0 {
        Seq::empty()
    } else if size > LARGE_FILE {
        seq![Progress { id, percent: 50 }, Progress { id, percent: 100 }]
    } else {
        seq![Progress { id, percent: 100 }]
    }
}

/// `step` begins an upload of `size` bytes.
pub open spec fn begins_upload(
    step: UploadStep,
    size: u64,
    id: Option<Seq<char>>,
    connected: bool,
) -> bool {
    match step {
        UploadStep::Done(message) => !connected && message@ == "Mock upload successful"@,
        UploadStep::Send { upload, progress } => {
            &&& connected
            &&& upload.size == size
            &&& upload.id@ == id_or_empty(id)
            &&& progress.deep_view() == report(id_or_empty(id), 0)
        },
    }
}

/// `res` begins an upload on the ledger `l` if it fits there, and says why not otherwise.
pub open spec fn upload_begun(
    l: Ledger,
    size: u64,
    id: Option<Seq<char>>,
    connected: bool,
    res: Result<UploadStep, String>,
) -> bool {
    match res {
        Ok(step) => bandwidth::fits(l, size as nat) && begins_upload(step, size, id, connected),
        Err(e) => !bandwidth::fits(l, size as nat) && e@ == bandwidth::limit_message(
            l,
            size as nat,
        ),
    }
}

/// Begins to send a file of `size` bytes on the day `today`.
pub fn upload_file_on(
    bandwidth: &mut BandwidthManager,
    today: String,
    size: u64,
    transfer_id: Option<String>,
    connected: bool,
) -> (res: Result<UploadStep, String>)
    ensures
        final(bandwidth)@ == bandwidth::reserved(
            bandwidth::on_day(old(bandwidth)@, today@),
            size as nat,
            TransferKind::Up,
        ),
        upload_begun(
            bandwidth::on_day(old(bandwidth)@, today@),
            size,
            transfer_id.deep_view(),
            connected,
            res,
        ),
{
    match bandwidth.try_reserve_on(today, size, TransferKind::Up) {
        Ok(_) => {},
        Err(e) => {
            return Err(e);
        },
    }
    if !connected {
        return Ok(UploadStep::Done("Mock upload successful".to_owned()));
    }
    let id = given_id(transfer_id);
    let progress = make_report(&id, 0);
    Ok(UploadStep::Send { upload: Upload { id, size }, progress })
}

/// Begins to send a file of `size` bytes today.
pub fn cmd_upload_file(
    bandwidth: &mut BandwidthManager,
    size: u64,
    transfer_id: Option<String>,
    connected: bool,
) -> (res: Result<UploadStep, String>)
    ensures
        exists|today: Seq<char>|
            {
                &&& clock::is_date(today)
                &&& final(bandwidth)@ == bandwidth::reserved(
                    #[trigger] bandwidth::on_day(old(bandwidth)@, today),
                    size as nat,
                    TransferKind::Up,
                )
                &&& upload_begun(
                    bandwidth::on_day(old(bandwidth)@, today),
                    size,
                    transfer_id.deep_view(),
                    connected,
                    res,
                )
            },
{
    upload_file_on(bandwidth, clock::today(), size, transfer_id, connected)
}

/// A step of a transfer: where it failed, `owed` bytes are given back.
pub open spec fn settled(l: Ledger, owed: nat, kind: TransferKind, failed: bool) -> Ledger {
    if failed {
        bandwidth::refunded(l, owed, kind)
    } else {
        l
    }
}

/// `res` passes an outcome on.
pub open spec fn passes_on(outcome: Result<(), String>, res: Result<(), String>) -> bool {
    match outcome {
        Ok(_) => res is Ok,
        Err(e) => res matches Err(m) && m@ == e@,
    }
}

impl Upload {
    /// What follows from the sending of the bytes.
    pub fn on_uploaded(&self, bandwidth: &mut BandwidthManager, outcome: UploadOutcome) -> (res:
        Result<(), String>)
        ensures
            final(bandwidth)@ == settled(
                old(bandwidth)@,
                self.size as nat,
                TransferKind::Up,
                !(outcome is Uploaded),
            ),
            match outcome {
                UploadOutcome::Uploaded => res is Ok,
                UploadOutcome::Failed(e) => res matches Err(m) && m@ == e@,
                UploadOutcome::TaskLost(e) => res matches Err(m) && m@ == "Task join error: "@
                    + e@,
            },
    {
        match outcome {
            UploadOutcome::Uploaded => Ok(()),
            UploadOutcome::Failed(e) => {
                bandwidth.refund(self.size, TransferKind::Up);
                Err(e)
            },
            UploadOutcome::TaskLost(e) => {
                bandwidth.refund(self.size, TransferKind::Up);
                let mut message = "Task join error: ".to_owned();
                message.append(e.as_str());
                Err(message)
            },
        }
    }

    /// What follows from looking up where the file goes.
    pub fn on_peer(&self, bandwidth: &mut BandwidthManager, outcome: Result<(), String>) -> (res:
        Result<(), String>)
        ensures
            final(bandwidth)@ == settled(
                old(bandwidth)@,
                self.size as nat,
                TransferKind::Up,
                outcome is Err,
            ),
            passes_on(outcome, res),
    {
        match outcome {
            Ok(_) => Ok(()),
            Err(e) => {
                bandwidth.refund(self.size, TransferKind::Up);
                Err(e)
            },
        }
    }

    /// What follows from sending the message with the file: the end of the upload.
    pub fn on_sent(self, bandwidth: &mut BandwidthManager, outcome: Result<(), String>) -> (res:
        Result<Finished, String>)
        ensures
            final(bandwidth)@ == settled(
                old(bandwidth)@,
                self.size as nat,
                TransferKind::Up,
                outcome is Err,
            ),
            match outcome {
                Ok(_) => res matches Ok(done) && done.progress.deep_view() == upload_reports(
                    self.id@,
                    self.size,
                ) && done.message@ == "File uploaded successfully"@,
                Err(e) => res matches Err(m) && m@ == e@,
            },
    {
        match outcome {
            Ok(_) => {
                let mut progress: Vec<ProgressPayload> = Vec::new();
                if self.size > LARGE_FILE {
                    if let Some(half) = make_report(&self.id, 50) {
                        progress.push(half);
                    }
                }
                if let Some(whole) = make_report(&self.id, 100) {
                    progress.push(whole);
                }
                assert(progress.deep_view() =~= upload_reports(self.id@, self.size));
                Ok(Finished { progress, message: "File uploaded successfully".to_owned() })
            },
            Err(e) => {
                bandwidth.refund(self.size, TransferKind::Up);
                Err(e)
            },
        }
    }
}

/// What to do to receive a file.
#[derive(Debug, PartialEq)]
pub enum DownloadStep {
    /// Write `content` to the file and say `message`: there is no client.
    WriteMock { content: String, message: String },
    /// Fetch the message.
    Fetch,
}

/// Begins to receive a file.
pub fn cmd_download_file(connected: bool) -> (res: DownloadStep)
    ensures
        match res {
            DownloadStep::WriteMock { content, message } => !connected && content@ == MOCK_CONTENT@
                && message@ == "Download successful"@,
            DownloadStep::Fetch => connected,
        },
{
    if connected {
        DownloadStep::Fetch
    } else {
        DownloadStep::WriteMock {
            content: MOCK_CONTENT.to_owned(),
            message: "Download successful".to_owned(),
        }
    }
}

/// The first message that is there, with its media if it has any.
pub open spec fn first_found(messages: Seq<Option<Option<Media>>>) -> Option<Option<Media>>
    decreases messages.len(),
{
    if messages.len() == 0 {
        None
    } else {
        match messages[0] {
            Some(message) => Some(message),
            None => first_found(messages.skip(1)),
        }
    }
}

/// Takes the media out of the fetched messages, each of which may be missing or bare.
pub fn media_to_download(messages: Vec<Option<Option<Media>>>) -> (res: Result<Media, String>)
    ensures
        match first_found(messages@) {
            None => res matches Err(e) && e@ == "Message not found"@,
            Some(None) => res matches Err(e) && e@ == "No media in message"@,
            Some(Some(media)) => res == Ok::<Media, String>(media),
        },
{
    let ghost all = messages@;
    assert(all.skip(0) =~= all);
    for message in it: messages
        invariant
            it.seq() == all,
            first_found(all) == first_found(all.skip(it.index())),
    {
        assert(all.skip(it.index()).skip(1) =~= all.skip(it.index() + 1));
        match message {
            Some(Some(media)) => {
                return Ok(media);
            },
            Some(None) => {
                return Err("No media in message".to_owned());
            },
            None => {},
        }
    }
    Err("Message not found".to_owned())
}

/// What a download is counted with: the bits of a document's size, a fixed size for a photo.
pub open spec fn declared_size(media: Media) -> nat {
    match media {
        Media::Document { size, .. } => if size < 0 {
            (size + 0x1_0000_0000_0000_0000) as nat
        } else {
            size as nat
        },
        Media::Photo => PHOTO_SIZE as nat,
        Media::Other => 0,
    }
}

/// What a download is counted with.
pub fn size_to_download(media: &Media) -> (res: u64)
    ensures
        res == declared_size(*media),
{
    match media {
        Media::Document { size, .. } => if *size < 0 {
            (*size as i128 + 0x1_0000_0000_0000_0000) as u64
        } else {
            *size as u64
        },
        Media::Photo => PHOTO_SIZE,
        Media::Other => 0,
    }
}

/// A download under way.
#[derive(Debug, PartialEq)]
pub struct Download {
    pub id: String,
    pub total_size: u64,
    pub downloaded: u64,
    pub last_percent: u8,
}

/// A download and the report that it has begun.
#[derive(Debug, PartialEq)]
pub struct DownloadStart {
    pub download: Download,
    pub progress: Option<ProgressPayload>,
}

/// `start` begins a download of `total` bytes.
pub open spec fn begins_download(start: DownloadStart, total: nat, id: Option<Seq<char>>) -> bool {
    &&& start.download.id@ == id_or_empty(id)
    &&& start.download.total_size == total
    &&& start.download.downloaded == 0
    &&& start.download.last_percent == 0
    &&& start.progress.deep_view() == report(id_or_empty(id), 0)
}

/// `res` begins a download on the ledger `l` if it fits there, and says why not otherwise.
pub open spec fn download_begun(
    l: Ledger,
    total: nat,
    id: Option<Seq<char>>,
    res: Result<DownloadStart, String>,
) -> bool {
    match res {
        Ok(start) => bandwidth::fits(l, total) && begins_download(start, total, id),
        Err(e) => !bandwidth::fits(l, total) && e@ == bandwidth::limit_message(l, total),
    }
}

/// What is still owed of a download: the bytes that were reserved and have not arrived.
pub open spec fn outstanding(d: Download) -> nat {
    bandwidth::less(d.total_size as nat, d.downloaded as nat)
}

/// A download after one more chunk. The percentage is kept up for a download with an
/// identifier and a size.
pub open spec fn with_chunk(d: Download, len: nat) -> Download {
    let downloaded = d.downloaded + len;
    Download {
        downloaded: downloaded as u64,
        last_percent: if d.id@.len() > 0 && d.total_size > 0 {
            percent::percent(downloaded as nat, d.total_size as nat) as u8
        } else {
            d.last_percent
        },
        ..d
    }
}

/// Begins to receive some media on the day `today`.
pub fn begin_download_on(
    bandwidth: &mut BandwidthManager,
    today: String,
    media: &Media,
    transfer_id: Option<String>,
) -> (res: Result<DownloadStart, String>)
    ensures
        final(bandwidth)@ == bandwidth::reserved(
            bandwidth::on_day(old(bandwidth)@, today@),
            declared_size(*media),
            TransferKind::Down,
        ),
        download_begun(
            bandwidth::on_day(old(bandwidth)@, today@),
            declared_size(*media),
            transfer_id.deep_view(),
            res,
        ),
{
    let total_size = size_to_download(media);
    match bandwidth.try_reserve_on(today, total_size, TransferKind::Down) {
        Ok(_) => {},
        Err(e) => {
            return Err(e);
        },
    }
    let id = given_id(transfer_id);
    let progress = make_report(&id, 0);
    Ok(
        DownloadStart {
            download: Download { id, total_size, downloaded: 0, last_percent: 0 },
            progress,
        },
    )
}

/// Begins to receive some media today.
pub fn begin_download(
    bandwidth: &mut BandwidthManager,
    media: &Media,
    transfer_id: Option<String>,
) -> (res: Result<DownloadStart, String>)
    ensures
        exists|today: Seq<char>|
            {
                &&& clock::is_date(today)
                &&& final(bandwidth)@ == bandwidth::reserved(
                    #[trigger] bandwidth::on_day(old(bandwidth)@, today),
                    declared_size(*media),
                    TransferKind::Down,
                )
                &&& download_begun(
                    bandwidth::on_day(old(bandwidth)@, today),
                    declared_size(*media),
                    transfer_id.deep_view(),
                    res,
                )
            },
{
    begin_download_on(bandwidth, clock::today(), media, transfer_id)
}

impl Download {
    fn give_back(&self, bandwidth: &mut BandwidthManager)
        ensures
            final(bandwidth)@ == bandwidth::refunded(
                old(bandwidth)@,
                outstanding(*self),
                TransferKind::Down,
            ),
    {
        bandwidth.refund(self.total_size.saturating_sub(self.downloaded), TransferKind::Down);
    }

    /// What follows from making or writing the file.
    pub fn on_file(&self, bandwidth: &mut BandwidthManager, outcome: Result<(), String>) -> (res:
        Result<(), String>)
        ensures
            final(bandwidth)@ == settled(
                old(bandwidth)@,
                outstanding(*self),
                TransferKind::Down,
                outcome is Err,
            ),
            passes_on(outcome, res),
    {
        match outcome {
            Ok(_) => Ok(()),
            Err(e) => {
                self.give_back(bandwidth);
                Err(e)
            },
        }
    }

    /// What follows from a chunk that did not come.
    pub fn on_chunk_error(&self, bandwidth: &mut BandwidthManager, error: &str) -> (res: String)
        ensures
            final(bandwidth)@ == bandwidth::refunded(
                old(bandwidth)@,
                outstanding(*self),
                TransferKind::Down,
            ),
            res@ == "Download chunk error: "@ + error@,
    {
        self.give_back(bandwidth);
        let mut message = "Download chunk error: ".to_owned();
        message.append(error);
        message
    }

    /// Counts a chunk of `len` bytes that was written, and reports the percentage if it is
    /// another one than before.
    pub fn on_written(&mut self, len: usize) -> (res: Option<ProgressPayload>)
        requires
            old(self).downloaded + len <= u64::MAX,
        ensures
            *final(self) == with_chunk(*old(self), len as nat),
            final(self).downloaded == old(self).downloaded + len,
            final(self).total_size == old(self).total_size,
            final(self).id == old(self).id,
            res.deep_view() == if final(self).last_percent != old(self).last_percent {
                report(old(self).id@, final(self).last_percent)
            } else {
                None
            },
    {
        self.downloaded = self.downloaded + len as u64;
        if self.id.as_str().is_empty() || self.total_size == 0 {
            return None;
        }
        let now = percent::whole_percent(self.downloaded, self.total_size);
        if now == self.last_percent {
            return None;
        }
        self.last_percent = now;
        make_report(&self.id, now)
    }

    /// Ends the download once everything is written: what was reserved and did not arrive is
    /// given back, also where the last writing failed.
    pub fn finish(self, bandwidth: &mut BandwidthManager, flushed: Result<(), String>) -> (res:
        Result<Finished, String>)
        ensures
            final(bandwidth)@ == bandwidth::refunded(
                old(bandwidth)@,
                outstanding(self),
                TransferKind::Down,
            ),
            match flushed {
                Ok(_) => res matches Ok(done) && done.progress.deep_view() == match report(
                    self.id@,
                    100,
                ) {
                    Some(p) => seq![p],
                    None => Seq::<Progress>::empty(),
                } && done.message@ == "Download successful"@,
                Err(e) => res matches Err(m) && m@ == e@,
            },
    {
        self.give_back(bandwidth);
        match flushed {
            Ok(_) => {
                let mut progress: Vec<ProgressPayload> = Vec::new();
                if let Some(whole) = make_report(&self.id, 100) {
                    progress.push(whole);
                    assert(progress.deep_view() =~= seq![whole@]);
                } else {
                    assert(progress.deep_view() =~= Seq::<Progress>::empty());
                }
                Ok(Finished { progress, message: "Download successful".to_owned() })
            },
            Err(e) => Err(e),
        }
    }
}

/// However a download ends, the day is charged with what arrived of the reserved bytes.
pub proof fn law_download_costs_what_arrived(l: Ledger, d: Download)
    requires
        l.limit <= u64::MAX,
        bandwidth::fits(l, d.total_size as nat),
    ensures
        bandwidth::refunded(
            bandwidth::reserved(l, d.total_size as nat, TransferKind::Down),
            outstanding(d),
            TransferKind::Down,
        ).usage == bandwidth::counted(
            l.usage,
            if d.downloaded < d.total_size {
                d.downloaded as nat
            } else {
                d.total_size as nat
            },
            TransferKind::Down,
        ),
{
}

/// An upload that failed costs nothing, and one that succeeded its size.
pub proof fn law_failed_upload_costs_nothing(l: Ledger, size: u64)
    requires
        l.limit <= u64::MAX,
        bandwidth::fits(l, size as nat),
    ensures
        settled(
            bandwidth::reserved(l, size as nat, TransferKind::Up),
            size as nat,
            TransferKind::Up,
            true,
        ).usage == l.usage,
        settled(
            bandwidth::reserved(l, size as nat, TransferKind::Up),
            size as nat,
            TransferKind::Up,
            false,
        ).usage == bandwidth::counted(l.usage, size as nat, TransferKind::Up),
{
    bandwidth::law_refund_undoes_reservation(l, size as nat, TransferKind::Up);
}

/// A download after a row of chunks was written, one after the other.
pub open spec fn with_chunks(d: Download, chunks: Seq<Seq<u8>>) -> Download
    decreases chunks.len(),
{
    if chunks.len() == 0 {
        d
    } else {
        with_chunks(with_chunk(d, chunks[0].len()), chunks.drop_first())
    }
}

/// After a row of chunks, as many bytes are counted as the chunks have together; the size and
/// the identifier of the download stay.
pub proof fn law_every_written_byte_is_counted(d: Download, chunks: Seq<Seq<u8>>)
    requires
        d.downloaded + chunks.flatten().len() <= u64::MAX,
    ensures
        with_chunks(d, chunks).downloaded == d.downloaded + chunks.flatten().len(),
        with_chunks(d, chunks).total_size == d.total_size,
        with_chunks(d, chunks).id == d.id,
    decreases chunks.len(),
{
    if chunks.len() > 0 {
        let rest = chunks.drop_first();
        assert(chunks.flatten() == chunks[0] + rest.flatten());
        law_every_written_byte_is_counted(with_chunk(d, chunks[0].len()), rest);
    } else {
        assert(chunks.flatten() =~= Seq::empty());
    }
}

/// Once a download is over, the day has received as many bytes more as were written of it, but
/// no more than its declared size; nothing else has changed.
pub proof fn law_finished_download_costs_its_bytes(l: Ledger, d: Download, chunks: Seq<Seq<u8>>)
    requires
        l.limit <= u64::MAX,
        l.usage.up + l.usage.down + d.total_size <= l.limit,
        d.downloaded == 0,
        chunks.flatten().len() <= u64::MAX,
    ensures
        ({
            let arrived = chunks.flatten().len();
            let after = bandwidth::refunded(
                bandwidth::reserved(l, d.total_size as nat, TransferKind::Down),
                outstanding(with_chunks(d, chunks)),
                TransferKind::Down,
            );
            &&& arrived <= d.total_size ==> after.usage.down == l.usage.down + arrived
            &&& arrived > d.total_size ==> after.usage.down == l.usage.down + d.total_size
            &&& after.usage.up == l.usage.up
            &&& after.usage.date == l.usage.date
            &&& after.limit == l.limit
        }),
{
    law_every_written_byte_is_counted(d, chunks);
}

/// What is owed of a download makes, with what has arrived, the declared size, unless more has
/// arrived than that.
pub proof fn law_outstanding_is_what_is_missing(d: Download)
    ensures
        d.downloaded <= d.total_size ==> outstanding(d) + d.downloaded == d.total_size,
        d.downloaded > d.total_size ==> outstanding(d) == 0,
{
}

/// The percentage is kept up with the bytes for a download that is reported on and has a size,
/// and stays as it is for any other.
pub proof fn law_percentage_follows_the_bytes(d: Download, len: nat)
    requires
        d.downloaded + len <= u64::MAX,
    ensures
        ({
            let after = with_chunk(d, len);
            &&& d.id@.len() > 0 && d.total_size > 0 ==> after.last_percent == percent::percent(
                (d.downloaded + len) as nat,
                d.total_size as nat,
            )
            &&& d.id@.len() == 0 || d.total_size == 0 ==> after.last_percent == d.last_percent
        }),
{
    if d.total_size > 0 {
        percent::law_percent_from_start_to_end(
            (d.downloaded + len) as nat,
            d.total_size as nat,
        );
    }
}

/// A report carries the identifier and the percentage; a transfer without an identifier is not
/// reported on.
pub proof fn law_reports_carry_the_identifier(id: Seq<char>, percent: u8)
    ensures
        id.len() > 0 ==> report(id, percent) == Some(Progress { id, percent }),
        id.len() == 0 ==> report(id, percent) is None,
        id_or_empty(Some(id)) == id,
        id_or_empty(None).len() == 0,
{
}

/// A finished upload with an identifier is reported as complete in the end, and as half done
/// before that exactly if it has more than ten megabytes.
pub proof fn law_upload_reports(id: Seq<char>, size: u64)
    ensures
        id.len() == 0 ==> upload_reports(id, size).len() == 0,
        id.len() > 0 ==> upload_reports(id, size).last() == (Progress { id, percent: 100 }),
        id.len() > 0 && size > 10 * 1024 * 1024 ==> upload_reports(id, size).len() == 2
            && upload_reports(id, size)[0] == (Progress { id, percent: 50 }),
        id.len() > 0 && size <= 10 * 1024 * 1024 ==> upload_reports(id, size).len() == 1,
{
}

/// An upload begins exactly if its bytes stay within the day's limit. With a client it is sent
/// with its size and identifier, and its start is reported; without one nothing is sent.
pub proof fn law_upload_begins_within_the_limit(
    l: Ledger,
    size: u64,
    id: Option<Seq<char>>,
    connected: bool,
    res: Result<UploadStep, String>,
)
    requires
        upload_begun(l, size, id, connected, res),
    ensures
        res is Ok <==> l.usage.up + l.usage.down + size <= l.limit,
        res matches Ok(UploadStep::Send { upload, progress }) ==> {
            &&& connected
            &&& upload.size == size
            &&& id matches Some(t) ==> upload.id@ == t
            &&& id is None ==> upload.id@.len() == 0
            &&& upload.id@.len() > 0 ==> progress.deep_view() == Some(
                Progress { id: upload.id@, percent: 0 },
            )
            &&& upload.id@.len() == 0 ==> progress is None
        },
        res matches Ok(UploadStep::Done(message)) ==> !connected && message@
            == "Mock upload successful"@,
{
}

/// An upload that went through adds its size to what the day has sent; one that failed leaves
/// the day as it was. Nothing else changes either way.
pub proof fn law_upload_costs_its_size_or_nothing(l: Ledger, size: u64, failed: bool)
    requires
        l.limit <= u64::MAX,
        l.usage.up + l.usage.down + size <= l.limit,
    ensures
        ({
            let after = settled(
                bandwidth::reserved(l, size as nat, TransferKind::Up),
                size as nat,
                TransferKind::Up,
                failed,
            );
            &&& after.usage.up == l.usage.up + if failed {
                0
            } else {
                size as int
            }
            &&& after.usage.down == l.usage.down
            &&& after.usage.date == l.usage.date
            &&& after.limit == l.limit
        }),
{
}

/// A download begins exactly if its declared size stays within the day's limit, with nothing
/// received yet.
pub proof fn law_download_begins_within_the_limit(
    l: Ledger,
    total: nat,
    id: Option<Seq<char>>,
    res: Result<DownloadStart, String>,
)
    requires
        download_begun(l, total, id, res),
    ensures
        res is Ok <==> l.usage.up + l.usage.down + total <= l.limit,
        res matches Ok(start) ==> {
            &&& start.download.total_size == total
            &&& start.download.downloaded == 0
            &&& start.download.last_percent == 0
            &&& id matches Some(t) ==> start.download.id@ == t
            &&& id is None ==> start.download.id@.len() == 0
            &&& start.download.id@.len() > 0 ==> start.progress.deep_view() == Some(
                Progress { id: start.download.id@, percent: 0 },
            )
            &&& start.download.id@.len() == 0 ==> start.progress is None
        },
{
}

/// A document is counted with its size, modulo 2^64; a photo with a megabyte; anything else with
/// nothing.
pub proof fn law_declared_size(name: String, size: i64, mime_type: Option<String>)
    ensures
        ({
            let n = declared_size(Media::Document { name, size, mime_type });
            &&& size >= 0 ==> n == size
            &&& size < 0 ==> n == size + 0x1_0000_0000_0000_0000
        }),
        declared_size(Media::Photo) == 1024 * 1024,
        declared_size(Media::Other) == 0,
{
}

/// Of the fetched messages the first that is there counts, whatever stands behind it.
pub proof fn law_first_message_that_is_there(messages: Seq<Option<Option<Media>>>, k: int)
    requires
        0 <= k <= messages.len(),
        forall|i: int| 0 <= i < k ==> #[trigger] messages[i] is None,
        k < messages.len() ==> messages[k] is Some,
    ensures
        k < messages.len() ==> first_found(messages) == messages[k],
        k == messages.len() ==> first_found(messages) is None,
    decreases k,
{
    if k > 0 {
        let rest = messages.skip(1);
        assert(messages[0] is None);
        assert forall|i: int| 0 <= i < k - 1 implies #[trigger] rest[i] is None by {
            assert(rest[i] == messages[i + 1]);
        }
        law_first_message_that_is_there(rest, k - 1);
    }
}

/// An error is passed on as it is, and only an error makes one.
pub proof fn law_errors_are_passed_on(outcome: Result<(), String>, res: Result<(), String>)
    requires
        passes_on(outcome, res),
    ensures
        outcome is Ok <==> res is Ok,
        outcome matches Err(e) ==> (res matches Err(m) && m@ == e@),
{
}

/// A transfer that does not fit is refused with the limit, and with what the day would have come
/// to.
pub proof fn law_refused_transfers_are_told_why(
    l: Ledger,
    size: u64,
    id: Option<Seq<char>>,
    connected: bool,
    up: Result<UploadStep, String>,
    down: Result<DownloadStart, String>,
)
    requires
        upload_begun(l, size, id, connected, up),
        download_begun(l, size as nat, id, down),
        l.usage.up + l.usage.down + size > l.limit,
        l.usage.up + l.usage.down + size <= u64::MAX,
    ensures
        ({
            let why = "Daily bandwidth limit ("@ + crate::size::size_text(l.limit)
                + ") exceeded! Used: "@ + crate::size::size_text(
                l.usage.up + l.usage.down + size as nat,
            );
            &&& up matches Err(e) && e@ == why
            &&& down matches Err(e) && e@ == why
        }),
{
}

} // verus!
