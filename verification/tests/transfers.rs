use omnisync::bandwidth::{BandwidthManager, BandwidthStats, DAILY_LIMIT};
use omnisync::commands::transfer::{
    begin_download, begin_download_on, cmd_download_file, cmd_upload_file, media_to_download,
    size_to_download, upload_file_on, Download, DownloadStep, Upload, UploadOutcome, UploadStep,
    LARGE_FILE,
};
use omnisync::models::{Media, ProgressPayload};
use omnisync::percent::whole_percent;

const DAY: &str = "2024-05-17";

fn s(text: &str) -> String {
    text.to_string()
}

fn ledger(up_bytes: u64, down_bytes: u64) -> BandwidthManager {
    BandwidthManager::new(Some(BandwidthStats { date: s(DAY), up_bytes, down_bytes }))
}

fn used(m: &BandwidthManager) -> (u64, u64) {
    (m.stats.up_bytes, m.stats.down_bytes)
}

fn progress(id: &str, percent: u8) -> ProgressPayload {
    ProgressPayload { id: s(id), percent }
}

fn document(size: i64) -> Media {
    Media::Document { name: s("a"), size, mime_type: None }
}

fn begin_upload(m: &mut BandwidthManager, size: u64, id: Option<String>) -> Upload {
    match upload_file_on(m, s(DAY), size, id, true) {
        Ok(UploadStep::Send { upload, .. }) => upload,
        other => panic!("{:?}", other),
    }
}

#[test]
fn an_upload_without_a_client_counts_all_the_same() {
    let mut m = ledger(0, 0);
    assert_eq!(
        upload_file_on(&mut m, s(DAY), 10, None, false),
        Ok(UploadStep::Done(s("Mock upload successful")))
    );
    assert_eq!(used(&m), (10, 0));
    let mut today = BandwidthManager::new(None);
    assert_eq!(
        cmd_upload_file(&mut today, 10, None, false),
        Ok(UploadStep::Done(s("Mock upload successful")))
    );
    assert_eq!(used(&today), (10, 0));
}

#[test]
fn an_upload_over_the_limit_is_refused() {
    let mut m = ledger(DAILY_LIMIT, 0);
    assert_eq!(
        upload_file_on(&mut m, s(DAY), 1, None, true),
        Err(s("Daily bandwidth limit (250.00 GB) exceeded! Used: 250.00 GB"))
    );
    assert_eq!(used(&m), (DAILY_LIMIT, 0));
}

#[test]
fn an_upload_reports_its_start() {
    let mut m = ledger(0, 0);
    assert_eq!(
        upload_file_on(&mut m, s(DAY), 10, Some(s("t")), true),
        Ok(UploadStep::Send {
            upload: Upload { id: s("t"), size: 10 },
            progress: Some(progress("t", 0)),
        })
    );
    assert_eq!(
        upload_file_on(&mut m, s(DAY), 10, None, true),
        Ok(UploadStep::Send { upload: Upload { id: s(""), size: 10 }, progress: None })
    );
}

#[test]
fn a_finished_upload_costs_its_size() {
    let mut m = ledger(5, 0);
    let upload = begin_upload(&mut m, 10, Some(s("t")));
    assert_eq!(upload.on_uploaded(&mut m, UploadOutcome::Uploaded), Ok(()));
    assert_eq!(upload.on_peer(&mut m, Ok(())), Ok(()));
    let done = upload.on_sent(&mut m, Ok(())).unwrap();
    assert_eq!(done.message, "File uploaded successfully");
    assert_eq!(done.progress, vec![progress("t", 100)]);
    assert_eq!(used(&m), (15, 0));
}

#[test]
fn a_large_upload_is_also_reported_half_done() {
    let mut m = ledger(0, 0);
    let upload = begin_upload(&mut m, LARGE_FILE + 1, Some(s("t")));
    let done = upload.on_sent(&mut m, Ok(())).unwrap();
    assert_eq!(done.progress, vec![progress("t", 50), progress("t", 100)]);
    let upload = begin_upload(&mut m, LARGE_FILE, Some(s("t")));
    assert_eq!(upload.on_sent(&mut m, Ok(())).unwrap().progress, vec![progress("t", 100)]);
    let upload = begin_upload(&mut m, LARGE_FILE + 1, None);
    assert_eq!(upload.on_sent(&mut m, Ok(())).unwrap().progress, vec![]);
}

#[test]
fn a_failed_upload_costs_nothing() {
    let mut m = ledger(5, 0);
    let upload = begin_upload(&mut m, 10, None);
    assert_eq!(upload.on_uploaded(&mut m, UploadOutcome::Failed(s("e"))), Err(s("e")));
    assert_eq!(used(&m), (5, 0));
    let upload = begin_upload(&mut m, 10, None);
    assert_eq!(upload.on_peer(&mut m, Err(s("p"))), Err(s("p")));
    assert_eq!(used(&m), (5, 0));
    let upload = begin_upload(&mut m, 10, None);
    assert_eq!(upload.on_sent(&mut m, Err(s("m"))), Err(s("m")));
    assert_eq!(used(&m), (5, 0));
}

#[test]
fn a_lost_upload_task_costs_nothing() {
    let mut m = ledger(5, 0);
    let upload = begin_upload(&mut m, 10, None);
    assert_eq!(
        upload.on_uploaded(&mut m, UploadOutcome::TaskLost(s("panic"))),
        Err(s("Task join error: panic"))
    );
    assert_eq!(used(&m), (5, 0));
}

#[test]
fn a_download_without_a_client_writes_a_stand_in() {
    assert_eq!(cmd_download_file(true), DownloadStep::Fetch);
    assert_eq!(
        cmd_download_file(false),
        DownloadStep::WriteMock {
            content: s("Mock Content"),
            message: s("Download successful"),
        }
    );
}

#[test]
fn the_first_message_that_is_there_is_downloaded() {
    assert_eq!(media_to_download(vec![None, Some(Some(Media::Photo))]), Ok(Media::Photo));
    assert_eq!(
        media_to_download(vec![None, Some(None), Some(Some(Media::Photo))]),
        Err(s("No media in message"))
    );
    assert_eq!(media_to_download(vec![None]), Err(s("Message not found")));
    assert_eq!(media_to_download(vec![]), Err(s("Message not found")));
}

#[test]
fn declared_sizes() {
    assert_eq!(size_to_download(&document(7)), 7);
    assert_eq!(size_to_download(&document(-1)), u64::MAX);
    assert_eq!(size_to_download(&Media::Photo), 1_048_576);
    assert_eq!(size_to_download(&Media::Other), 0);
}

fn begin(m: &mut BandwidthManager, size: i64, id: Option<String>) -> Download {
    begin_download_on(m, s(DAY), &document(size), id).unwrap().download
}

#[test]
fn a_download_reserves_and_reports_its_start() {
    let mut m = ledger(0, 1);
    let start = begin_download_on(&mut m, s(DAY), &document(10), Some(s("t"))).unwrap();
    assert_eq!(start.progress, Some(progress("t", 0)));
    assert_eq!(
        start.download,
        Download { id: s("t"), total_size: 10, downloaded: 0, last_percent: 0 }
    );
    assert_eq!(used(&m), (0, 11));
    assert!(begin_download_on(&mut m, s(DAY), &document(-1), None).is_err());
    assert_eq!(used(&m), (0, 11));
    let mut today = BandwidthManager::new(None);
    assert_eq!(begin_download(&mut today, &document(10), None).unwrap().progress, None);
    assert_eq!(used(&today), (0, 10));
}

#[test]
fn however_a_download_ends_it_costs_what_arrived() {
    let mut m = ledger(0, 1);
    let mut d = begin(&mut m, 10, None);
    d.on_written(4);
    assert_eq!(d.on_chunk_error(&mut m, "gone"), "Download chunk error: gone");
    assert_eq!(used(&m), (0, 5));
    let d = begin(&mut m, 10, None);
    assert_eq!(d.on_file(&mut m, Ok(())), Ok(()));
    assert_eq!(used(&m), (0, 15));
    assert_eq!(d.on_file(&mut m, Err(s("disk"))), Err(s("disk")));
    assert_eq!(used(&m), (0, 5));
    let mut d = begin(&mut m, 10, Some(s("t")));
    d.on_written(3);
    d.on_written(3);
    let done = d.finish(&mut m, Ok(())).unwrap();
    assert_eq!(done.message, "Download successful");
    assert_eq!(done.progress, vec![progress("t", 100)]);
    assert_eq!(used(&m), (0, 11));
    let mut d = begin(&mut m, 10, None);
    d.on_written(12);
    assert_eq!(d.finish(&mut m, Err(s("flush"))), Err(s("flush")));
    assert_eq!(used(&m), (0, 21));
}

#[test]
fn percentages_are_reported_when_they_change() {
    let mut m = ledger(0, 0);
    let mut d = begin(&mut m, 1000, Some(s("t")));
    assert_eq!(d.on_written(9), None);
    assert_eq!(d.on_written(391), Some(progress("t", 40)));
    assert_eq!(d.on_written(5), None);
    assert_eq!(d.on_written(5), Some(progress("t", 41)));
    assert_eq!((d.last_percent, d.downloaded), (41, 410));
    assert_eq!(d.on_written(2000), Some(progress("t", 100)));
    let mut quiet = begin(&mut m, 10, None);
    assert_eq!(quiet.on_written(5), None);
    assert_eq!((quiet.last_percent, quiet.downloaded), (0, 5));
    let mut unknown = begin(&mut m, 0, Some(s("t")));
    assert_eq!(unknown.on_written(5), None);
    assert_eq!((unknown.last_percent, unknown.downloaded), (0, 5));
}

#[test]
fn percentages_never_fall() {
    for whole in [1u64, 3, 7, 1000, 10_485_761, (1 << 53) + 1, u64::MAX] {
        let mut last = 0;
        for k in 0..=2000u128 {
            let part = (whole as u128 * k / 1900).min(u64::MAX as u128) as u64;
            let now = whole_percent(part, whole);
            assert!(now >= last && now <= 100, "{} {}", part, whole);
            last = now;
        }
        assert_eq!(last, 100);
    }
}

fn float_percent(part: u64, whole: u64) -> u8 {
    ((part as f64 / whole as f64) * 100.0).min(100.0) as u8
}

#[test]
fn percentages_agree_with_doubles() {
    for whole in 1..1500u64 {
        for part in 0..=whole {
            assert_eq!(whole_percent(part, whole), float_percent(part, whole));
        }
    }
    let mut x: u64 = 0x9e37_79b9_7f4a_7c15;
    for k in 0..200_000u64 {
        x ^= x << 13;
        x ^= x >> 7;
        x ^= x << 17;
        let whole = (x >> (k % 64)).max(1);
        let part = whole / 100 * (k % 101) + k % 3;
        assert_eq!(whole_percent(part, whole), float_percent(part, whole), "{} {}", part, whole);
        let any = x.rotate_left(17) >> (k / 64 % 64);
        assert_eq!(whole_percent(any, whole), float_percent(any, whole), "{} {}", any, whole);
    }
    assert_eq!(whole_percent(0, u64::MAX), 0);
    assert_eq!(whole_percent(1, u64::MAX), 0);
    assert_eq!(whole_percent(u64::MAX - 1, u64::MAX), 100);
    assert_eq!(whole_percent(u64::MAX, 1), 100);
    assert_eq!(whole_percent(29, 100), float_percent(29, 100));
    assert_eq!(whole_percent(1, 3), 33);
}
