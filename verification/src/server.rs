//! The streaming server: who may stream, which bytes are asked for, and cutting the
//! downloaded chunks down to them.
use vstd::prelude::*;

use crate::cursor;
use crate::cursor::{Cursor, StreamCursor};
use crate::models::Media;
use crate::number;
use crate::pairs;
use crate::text;

verus! {

/// The size of the chunks in which media is downloaded.
pub const STREAM_CHUNK: i32 = 524_288;

/// An answer without a streamed body.
#[derive(Debug, PartialEq)]
pub struct HttpReply {
    pub status: u16,
    pub headers: Vec<(String, String)>,
    pub body: String,
}

/// What an `HttpReply` says.
pub struct Reply {
    pub status: u16,
    pub headers: Seq<(Seq<char>, Seq<char>)>,
    pub body: Seq<char>,
}

impl View for HttpReply {
    type V = Reply;

    open spec fn view(&self) -> Reply {
        Reply { status: self.status, headers: self.headers.deep_view(), body: self.body@ }
    }
}

/// A reply of a status and a text.
pub open spec fn text_reply(status: u16, body: Seq<char>) -> Reply {
    Reply { status, headers: Seq::empty(), body }
}

fn reply(status: u16, body: String) -> (res: HttpReply)
    ensures
        res@ == text_reply(status, body@),
{
    let headers: Vec<(String, String)> = Vec::new();
    let res = HttpReply { status, headers, body };
    assert(res@.headers =~= Seq::empty());
    res
}

/// The token of an `Authorization: Bearer ...` header.
pub open spec fn bearer(header: Seq<char>) -> Option<Seq<char>> {
    text::without_prefix(header, "Bearer "@)
}

/// The token that a request presents: the one of its query, else the one of its header.
pub open spec fn presented(query: Option<Seq<char>>, header: Option<Seq<char>>) -> Option<
    Seq<char>,
> {
    match (query, header) {
        (Some(t), _) => Some(t),
        (None, Some(h)) => bearer(h),
        (None, None) => None,
    }
}

/// The folder that a path segment names: none for the home folder, else a number.
pub open spec fn folder_named(segment: Seq<char>) -> Option<Option<i64>> {
    if segment == "me"@ || segment == "home"@ || segment == "null"@ {
        Some(None)
    } else {
        match number::read_signed(segment) {
            Some(n) => Some(Some(n as i64)),
            None => None,
        }
    }
}

/// Whether the presented token is the expected one.
pub fn authorized(
    query_token: Option<String>,
    authorization: Option<String>,
    expected: &str,
) -> (res: bool)
    ensures
        res == (presented(query_token.deep_view(), authorization.deep_view()) == Some(expected@)),
{
    let provided: Option<String> = match query_token {
        Some(t) => Some(t),
        None => match authorization {
            Some(h) => text::strip_prefix(h.as_str(), "Bearer "),
            None => None,
        },
    };
    match provided {
        Some(t) => text::same_text(t.as_str(), expected),
        None => false,
    }
}

/// Reads the folder out of a path segment.
pub fn parse_folder_id(segment: &str) -> (res: Option<Option<i64>>)
    ensures
        res == folder_named(segment@),
{
    if text::same_text(segment, "me") || text::same_text(segment, "home") || text::same_text(
        segment,
        "null",
    ) {
        return Some(None);
    }
    match number::read_i64(segment) {
        Some(n) => Some(Some(n)),
        None => None,
    }
}

/// Lets a stream request in, and says which folder it is about; or answers it.
pub fn accept_request(
    segment: &str,
    query_token: Option<String>,
    authorization: Option<String>,
    expected: &str,
) -> (res: Result<Option<i64>, HttpReply>)
    ensures
        ({
            let known = presented(query_token.deep_view(), authorization.deep_view()) == Some(
                expected@,
            );
            match res {
                Ok(folder) => known && folder_named(segment@) == Some(folder),
                Err(r) => if !known {
                    r@ == text_reply(403, "Invalid or missing stream token"@)
                } else {
                    folder_named(segment@) is None && r@ == text_reply(400, "Invalid folder ID"@)
                },
            }
        }),
{
    if !authorized(query_token, authorization, expected) {
        return Err(reply(403, "Invalid or missing stream token".to_owned()));
    }
    match parse_folder_id(segment) {
        Some(folder) => Ok(folder),
        None => Err(reply(400, "Invalid folder ID".to_owned())),
    }
}

/// Goes on if there is a Telegram client.
pub fn require_client(connected: bool) -> (res: Result<(), HttpReply>)
    ensures
        res is Ok <==> connected,
        res matches Err(r) ==> r@ == text_reply(503, "Telegram client not connected"@),
{
    if connected {
        Ok(())
    } else {
        Err(reply(503, "Telegram client not connected".to_owned()))
    }
}

/// Goes on if the folder was found.
pub fn require_peer(resolved: Result<(), String>) -> (res: Result<(), HttpReply>)
    ensures
        match resolved {
            Ok(_) => res is Ok,
            Err(e) => res matches Err(r) && r@ == text_reply(
                400,
                "Peer resolution failed: "@ + e@,
            ),
        },
{
    match resolved {
        Ok(_) => Ok(()),
        Err(e) => {
            let mut body = "Peer resolution failed: ".to_owned();
            body.append(e.as_str());
            Err(reply(400, body))
        },
    }
}

/// Takes the media out of the fetched messages, each of which may be missing or bare.
pub fn require_media(fetched: Result<Vec<Option<Option<Media>>>, String>) -> (res: Result<
    Media,
    HttpReply,
>)
    ensures
        match fetched {
            Err(e) => res matches Err(r) && r@ == text_reply(
                500,
                "Failed to fetch message: "@ + e@,
            ),
            Ok(messages) => if messages@.len() == 0 || messages@[0] is None {
                res matches Err(r) && r@ == text_reply(404, "Message not found"@)
            } else if messages@[0]->0 is None {
                res matches Err(r) && r@ == text_reply(404, "Media not found"@)
            } else {
                res == Ok::<Media, HttpReply>(messages@[0]->0->0)
            },
        },
{
    let mut messages = match fetched {
        Ok(messages) => messages,
        Err(e) => {
            let mut body = "Failed to fetch message: ".to_owned();
            body.append(e.as_str());
            return Err(reply(500, body));
        },
    };
    if messages.len() == 0 {
        return Err(reply(404, "Message not found".to_owned()));
    }
    match messages.remove(0) {
        None => Err(reply(404, "Message not found".to_owned())),
        Some(None) => Err(reply(404, "Media not found".to_owned())),
        Some(Some(media)) => Ok(media),
    }
}

/// The type that media is served as.
pub open spec fn media_type(media: Media) -> Seq<char> {
    match media {
        Media::Document { mime_type: Some(m), .. } => m@,
        _ => "application/octet-stream"@,
    }
}

/// The size that media is served with; zero where it is not known.
pub open spec fn media_size(media: Media) -> nat {
    match media {
        Media::Document { size, .. } => if size < 0 {
            0
        } else {
            size as nat
        },
        _ => 0,
    }
}

/// The type that media is served as.
pub fn mime_type_from_media(media: &Media) -> (res: String)
    ensures
        res@ == media_type(*media),
{
    match media {
        Media::Document { mime_type: Some(m), .. } => m.clone(),
        _ => "application/octet-stream".to_owned(),
    }
}

fn size_from_media(media: &Media) -> (res: u64)
    ensures
        res == media_size(*media),
{
    match media {
        Media::Document { size, .. } => if *size < 0 {
            0
        } else {
            *size as u64
        },
        _ => 0,
    }
}

/// The first byte and, where it is given, the last byte that a `Range` header asks for.
pub open spec fn range_asked(header: Seq<char>, total: nat) -> Option<(u64, Option<u64>)> {
    match text::without_prefix(header, "bytes="@) {
        None => None,
        Some(v) => {
            let hyphen = text::first_index(v, '-');
            let end = text::trimmed(v.skip(hyphen + 1));
            match number::read_unsigned(text::trimmed(v.take(hyphen)), u64::MAX as nat) {
                Some(start) => if hyphen < v.len() && start < total {
                    Some(
                        (
                            start as u64,
                            match number::read_unsigned(end, u64::MAX as nat) {
                                Some(e) => Some(e as u64),
                                None => None,
                            },
                        ),
                    )
                } else {
                    None
                },
                None => None,
            }
        },
    }
}

/// Reads a `Range: bytes=start-end?` header of a single range.
pub fn parse_range(h: &str, total: u64) -> (res: Option<(u64, Option<u64>)>)
    ensures
        res == range_asked(h@, total as nat),
{
    let value = match text::strip_prefix(h, "bytes=") {
        Some(value) => value,
        None => {
            return None;
        },
    };
    let cs = text::chars_of(value.as_str());
    let n: usize = cs.len();
    assert(cs@.skip(0) =~= cs@);
    let hyphen = text::position_of(&cs, 0, '-');
    if hyphen == n {
        return None;
    }
    let (a, b) = text::trim_range(&cs, 0, hyphen);
    assert(cs@.subrange(0, hyphen as int) =~= cs@.take(hyphen as int));
    let start: u64 = match number::read_u64_at(&cs, a, b) {
        Some(start) => start,
        None => {
            return None;
        },
    };
    let (c, d) = text::trim_range(&cs, hyphen + 1, n);
    assert(cs@.subrange(hyphen + 1, n as int) =~= cs@.skip(hyphen + 1));
    let end = if c == d {
        None
    } else {
        number::read_u64_at(&cs, c, d)
    };
    if start >= total {
        return None;
    }
    Some((start, end))
}

/// What is served for a request.
#[derive(Debug, PartialEq)]
pub enum RangePlan {
    /// No byte can be served.
    Unsatisfiable { available: String },
    /// `length` bytes from `start` on, or all of them where no length is known.
    Serve { status: u16, content_range: Option<String>, start: u64, length: Option<u64> },
}

/// What a `RangePlan` says.
pub enum Plan {
    Unsatisfiable { available: Seq<char> },
    Serve { status: u16, content_range: Option<Seq<char>>, start: nat, length: Option<nat> },
}

impl View for RangePlan {
    type V = Plan;

    open spec fn view(&self) -> Plan {
        match self {
            RangePlan::Unsatisfiable { available } => Plan::Unsatisfiable {
                available: available@,
            },
            RangePlan::Serve { status, content_range, start, length } => Plan::Serve {
                status: *status,
                content_range: content_range.deep_view(),
                start: *start as nat,
                length: match length {
                    Some(n) => Some(*n as nat),
                    None => None,
                },
            },
        }
    }
}

/// What is served of `total` bytes for a `Range` header.
pub open spec fn planned(range: Option<Seq<char>>, total: nat) -> Plan {
    let asked = match range {
        Some(h) => range_asked(h, total),
        None => None,
    };
    if total == 0 {
        Plan::Serve { status: 200, content_range: None, start: 0, length: None }
    } else {
        match asked {
            None => Plan::Serve { status: 200, content_range: None, start: 0, length: Some(total) },
            Some((start, last)) => {
                let end = if last is Some && last->0 < total {
                    last->0 as int
                } else {
                    total - 1
                };
                if end < start {
                    Plan::Unsatisfiable { available: "bytes */"@ + number::decimal(total) }
                } else {
                    Plan::Serve {
                        status: 206,
                        content_range: Some(
                            "bytes "@ + number::decimal(start as nat) + "-"@ + number::decimal(
                                end as nat,
                            ) + "/"@ + number::decimal(total),
                        ),
                        start: start as nat,
                        length: Some((end - start + 1) as nat),
                    }
                }
            },
        }
    }
}

/// Decides what to serve of `total` bytes.
pub fn plan_range(range: Option<&str>, total: u64) -> (res: RangePlan)
    ensures
        res@ == planned(
            match range {
                Some(h) => Some(h@),
                None => None,
            },
            total as nat,
        ),
{
    if total == 0 {
        return RangePlan::Serve { status: 200, content_range: None, start: 0, length: None };
    }
    let asked = match range {
        Some(h) => parse_range(h, total),
        None => None,
    };
    match asked {
        None => RangePlan::Serve {
            status: 200,
            content_range: None,
            start: 0,
            length: Some(total),
        },
        Some((start, last)) => {
            let end: u64 = match last {
                Some(e) => if e < total {
                    e
                } else {
                    total - 1
                },
                None => total - 1,
            };
            let total_text = number::write_decimal(total as u128);
            if end < start {
                let mut available = "bytes */".to_owned();
                available.append(total_text.as_str());
                RangePlan::Unsatisfiable { available }
            } else {
                let start_text = number::write_decimal(start as u128);
                let end_text = number::write_decimal(end as u128);
                let mut content_range = "bytes ".to_owned();
                content_range.append(start_text.as_str());
                content_range.append("-");
                content_range.append(end_text.as_str());
                content_range.append("/");
                content_range.append(total_text.as_str());
                RangePlan::Serve {
                    status: 206,
                    content_range: Some(content_range),
                    start,
                    length: Some(end - start + 1),
                }
            }
        },
    }
}

/// A number cut down to 32 bits, two's complement.
pub open spec fn low_i32(n: nat) -> int {
    let low = n % 0x1_0000_0000;
    if low < 0x8000_0000 {
        low as int
    } else {
        low - 0x1_0000_0000
    }
}

fn cut_to_i32(n: u64) -> (res: i32)
    ensures
        res == low_i32(n as nat),
{
    let low: u64 = n % 0x1_0000_0000;
    if low < 0x8000_0000 {
        low as i32
    } else {
        (low as i64 - 0x1_0000_0000) as i32
    }
}

/// A stream that is about to be sent.
#[derive(Debug, PartialEq)]
pub struct StreamStart {
    pub status: u16,
    pub headers: Vec<(String, String)>,
    /// How many chunks of the download to pass over.
    pub skip_chunks: i32,
    pub cursor: StreamCursor,
}

/// What a `StreamStart` says.
pub struct Opening {
    pub status: u16,
    pub headers: Seq<(Seq<char>, Seq<char>)>,
    pub skip_chunks: int,
    pub cursor: Cursor,
}

impl View for StreamStart {
    type V = Opening;

    open spec fn view(&self) -> Opening {
        Opening {
            status: self.status,
            headers: self.headers.deep_view(),
            skip_chunks: self.skip_chunks as int,
            cursor: self.cursor@,
        }
    }
}

/// The headers of a stream.
pub open spec fn stream_headers(
    mime: Seq<char>,
    content_range: Option<Seq<char>>,
    length: Option<nat>,
) -> Seq<(Seq<char>, Seq<char>)> {
    let always = seq![
        ("Content-Type"@, mime),
        ("Accept-Ranges"@, "bytes"@),
        ("Cache-Control"@, "private, max-age=120"@),
    ];
    let ranged = match content_range {
        Some(cr) => always.push(("Content-Range"@, cr)),
        None => always,
    };
    match length {
        Some(n) => ranged.push(("Content-Length"@, number::decimal(n))),
        None => ranged,
    }
}

/// The stream that serves `start` and `length` of some media.
pub open spec fn stream_opening(
    mime: Seq<char>,
    status: u16,
    content_range: Option<Seq<char>>,
    start: nat,
    length: Option<nat>,
) -> Opening {
    Opening {
        status,
        headers: stream_headers(mime, content_range, length),
        skip_chunks: low_i32(start / STREAM_CHUNK as nat),
        cursor: cursor::opening(start % STREAM_CHUNK as nat, length),
    }
}

/// Prepares the stream of some media, or answers that the range cannot be served.
pub fn open_stream(media: &Media, range: Option<&str>) -> (res: Result<StreamStart, HttpReply>)
    ensures
        match planned(
            match range {
                Some(h) => Some(h@),
                None => None,
            },
            media_size(*media),
        ) {
            Plan::Unsatisfiable { available } => res matches Err(r) && r@ == (Reply {
                status: 416,
                headers: seq![("Content-Range"@, available)],
                body: Seq::empty(),
            }),
            Plan::Serve { status, content_range, start, length } => res matches Ok(s) && s@
                == stream_opening(media_type(*media), status, content_range, start, length)
                && s.status == status && (start < 0x8000_0000 * 524_288 ==> s.skip_chunks * 524_288
                + s.cursor.intra_chunk_skip == start) && s.cursor.first && (match length {
                Some(n) => s.cursor.remaining is Some && s.cursor.remaining->0 == n,
                None => s.cursor.remaining is None,
            }),
        },
{
    let mut headers: Vec<(String, String)> = Vec::new();
    assert(headers.deep_view() =~= Seq::empty());
    match plan_range(range, size_from_media(media)) {
        RangePlan::Unsatisfiable { available } => {
            pairs::add_pair(&mut headers, "Content-Range", available);
            assert(headers.deep_view() =~= seq![("Content-Range"@, available@)]);
            Err(HttpReply { status: 416, headers, body: String::new() })
        },
        RangePlan::Serve { status, content_range, start, length } => {
            pairs::add_pair(&mut headers, "Content-Type", mime_type_from_media(media));
            pairs::add_pair(&mut headers, "Accept-Ranges", "bytes".to_owned());
            pairs::add_pair(&mut headers, "Cache-Control", "private, max-age=120".to_owned());
            assert(headers.deep_view() =~= seq![
                ("Content-Type"@, media_type(*media)),
                ("Accept-Ranges"@, "bytes"@),
                ("Cache-Control"@, "private, max-age=120"@),
            ]);
            if let Some(cr) = content_range {
                pairs::add_pair(&mut headers, "Content-Range", cr);
            }
            if let Some(n) = length {
                pairs::add_pair(&mut headers, "Content-Length", number::write_decimal(n as u128));
            }
            let chunk: u64 = STREAM_CHUNK as u64;
            let skip_chunks = cut_to_i32(start / chunk);
            Ok(
                StreamStart {
                    status,
                    headers,
                    skip_chunks,
                    cursor: StreamCursor::open((start % chunk) as usize, length),
                },
            )
        },
    }
}

/// The port to bind: the preferred one, or any free one once that has failed.
pub fn port_to_bind(preferred: u16, preferred_failed: bool) -> (res: u16)
    ensures
        res == if preferred_failed {
            0
        } else {
            preferred
        },
{
    if preferred_failed {
        0
    } else {
        preferred
    }
}

/// The port that the server is reached on: that of its first address.
pub fn bound_port(ports: &Vec<u16>, preferred: u16) -> (res: u16)
    ensures
        res == if ports@.len() > 0 {
            ports@[0]
        } else {
            preferred
        },
{
    if ports.len() > 0 {
        ports[0]
    } else {
        preferred
    }
}

/// The origins that may read from the server.
pub fn allowed_origins() -> (res: Vec<&'static str>)
    ensures
        res.deep_view() == seq![
            "tauri://localhost"@,
            "http://localhost:1420"@,
            "https://tauri.localhost"@,
        ],
{
    let res: Vec<&'static str> = vec![
        "tauri://localhost",
        "http://localhost:1420",
        "https://tauri.localhost",
    ];
    assert(res.deep_view() =~= seq![
        "tauri://localhost"@,
        "http://localhost:1420"@,
        "https://tauri.localhost"@,
    ]);
    res
}

/// What is served lies within the content, and a part of it is always marked as such.
pub proof fn law_served_range_is_within(range: Option<Seq<char>>, total: nat)
    requires
        0 < total <= u64::MAX,
    ensures
        planned(range, total) matches Plan::Serve { status, content_range, start, length } ==> {
            &&& length is Some
            &&& length->0 >= 1
            &&& start + length->0 <= total
            &&& status == 200 || status == 206
            &&& status == 206 <==> content_range is Some
            &&& status == 200 ==> start == 0 && length->0 == total
        },
{
}

/// A request for the bytes `first` to `last` is served those, as far as there are as many.
pub proof fn law_range_request_is_served(first: u64, last: u64, total: nat)
    requires
        first < total <= u64::MAX,
        first <= last,
    ensures
        planned(
            Some("bytes="@ + number::decimal(first as nat) + "-"@ + number::decimal(last as nat)),
            total,
        ) == (Plan::Serve {
            status: 206,
            content_range: Some(
                "bytes "@ + number::decimal(first as nat) + "-"@ + number::decimal(
                    if last < total {
                        last as nat
                    } else {
                        (total - 1) as nat
                    },
                ) + "/"@ + number::decimal(total),
            ),
            start: first as nat,
            length: Some(
                if last < total {
                    (last - first + 1) as nat
                } else {
                    (total - first) as nat
                },
            ),
        }),
{
    lemma_range_text(first, number::decimal(last as nat), total);
    number::lemma_decimal(last as nat);
    lemma_number_untrimmed(last as nat);
}

/// A request for the bytes from `first` on is served all of them.
pub proof fn law_open_range_request_is_served(first: u64, total: nat)
    requires
        first < total <= u64::MAX,
    ensures
        planned(Some("bytes="@ + number::decimal(first as nat) + "-"@), total) == (Plan::Serve {
            status: 206,
            content_range: Some(
                "bytes "@ + number::decimal(first as nat) + "-"@ + number::decimal(
                    (total - 1) as nat,
                ) + "/"@ + number::decimal(total),
            ),
            start: first as nat,
            length: Some((total - first) as nat),
        }),
{
    let header = "bytes="@ + number::decimal(first as nat) + "-"@;
    assert(header + Seq::<char>::empty() =~= header);
    lemma_range_text(first, Seq::empty(), total);
}

/// A request for the bytes `first` to `last` of some content receives exactly those bytes,
/// when the download delivers the content from the chunk on at which the stream is opened.
pub proof fn law_range_request_receives_its_bytes(
    mime: Seq<char>,
    content: Seq<u8>,
    first: u64,
    last: u64,
    chunks: Seq<Seq<u8>>,
)
    requires
        first < content.len() <= u64::MAX,
        first <= last,
        first / 524_288 <= i32::MAX,
        planned(
            Some("bytes="@ + number::decimal(first as nat) + "-"@ + number::decimal(last as nat)),
            content.len(),
        ) matches Plan::Serve { status, content_range, start, length } ==> {
            let s = stream_opening(mime, status, content_range, start, length);
            &&& chunks.flatten() == content.skip(s.skip_chunks * 524_288)
            &&& chunks.len() > 0 ==> s.cursor.skip <= chunks[0].len()
        },
    ensures
        planned(
            Some("bytes="@ + number::decimal(first as nat) + "-"@ + number::decimal(last as nat)),
            content.len(),
        ) matches Plan::Serve { status, content_range, start, length } && cursor::streamed(
            stream_opening(mime, status, content_range, start, length).cursor,
            chunks,
        ) == content.subrange(
            first as int,
            if last < content.len() {
                last + 1
            } else {
                content.len() as int
            },
        ),
{
    law_range_request_is_served(first, last, content.len());
    let length = if last < content.len() {
        (last - first + 1) as nat
    } else {
        (content.len() - first) as nat
    };
    cursor::law_stream_sends_the_range(
        content,
        STREAM_CHUNK as nat,
        chunks,
        first as nat,
        length,
    );
}

proof fn lemma_number_untrimmed(n: nat)
    ensures
        text::trimmed(number::decimal(n)) == number::decimal(n),
{
    number::lemma_decimal(n);
    let d = number::decimal(n);
    assert('0' <= d[0] <= '9');
    assert('0' <= d[d.len() - 1] <= '9');
}

proof fn lemma_hyphen_behind_digits(d: Seq<char>, tail: Seq<char>)
    requires
        number::all_digits(d),
    ensures
        text::first_index(d + seq!['-'] + tail, '-') == d.len(),
    decreases d.len(),
{
    let s = d + seq!['-'] + tail;
    if d.len() > 0 {
        assert('0' <= d[0] <= '9');
        let d1 = d.skip(1);
        assert(s.skip(1) =~= d1 + seq!['-'] + tail);
        assert forall|i: int| 0 <= i < d1.len() implies '0' <= #[trigger] d1[i] <= '9' by {
            assert(d1[i] == d[i + 1]);
        }
        lemma_hyphen_behind_digits(d1, tail);
    }
}

proof fn lemma_range_text(first: u64, tail: Seq<char>, total: nat)
    requires
        first < total,
    ensures
        range_asked("bytes="@ + number::decimal(first as nat) + "-"@ + tail, total) == Some(
            (
                first,
                match number::read_unsigned(text::trimmed(tail), u64::MAX as nat) {
                    Some(e) => Some(e as u64),
                    None => None::<u64>,
                },
            ),
        ),
{
    let d = number::decimal(first as nat);
    let h = "bytes="@ + d + "-"@ + tail;
    let v = d + seq!['-'] + tail;
    reveal_strlit("-");
    assert("-"@ =~= seq!['-']);
    assert(h.subrange(0, "bytes="@.len() as int) =~= "bytes="@);
    assert(h.skip("bytes="@.len() as int) =~= v);
    number::lemma_decimal(first as nat);
    lemma_hyphen_behind_digits(d, tail);
    assert(v.take(d.len() as int) =~= d);
    assert(v.skip(d.len() as int + 1) =~= tail);
    lemma_number_untrimmed(first as nat);
}

/// A stream that is opened at a byte passes over the chunks in front of it and drops the rest
/// of what is in front of it off the first chunk, so that it begins with that byte, for every
/// byte that 32 bits can count the chunks to. It owes as many bytes as it announces.
pub proof fn law_stream_opens_at_its_first_byte(
    mime: Seq<char>,
    status: u16,
    content_range: Option<Seq<char>>,
    start: nat,
    length: Option<nat>,
)
    ensures
        ({
            let s = stream_opening(mime, status, content_range, start, length);
            &&& start < 0x8000_0000 * 524_288 ==> s.skip_chunks * 524_288 + s.cursor.skip == start
            &&& s.skip_chunks * 524_288 + s.cursor.skip <= start
            &&& (start - s.cursor.skip - s.skip_chunks * 524_288) % 0x8_0000_0000_0000int == 0
            &&& i32::MIN <= s.skip_chunks <= i32::MAX
            &&& s.cursor.skip < 524_288
            &&& s.cursor.first
            &&& s.cursor.remaining == length
            &&& s.status == status
        }),
{
    let c = start / 524_288;
    let low = low_i32(c);
    assert(start == c * 524_288 + start % 524_288);
    assert((c - low) % 0x1_0000_0000 == 0);
    let k = (c - low) / 0x1_0000_0000;
    assert(c - low == k * 0x1_0000_0000);
    assert((c - low) * 524_288 == k * 0x8_0000_0000_0000);
    vstd::arithmetic::div_mod::lemma_mod_multiples_basic(k, 0x8_0000_0000_0000);
}

/// The headers of a stream: its type, that ranges can be asked for, how long it may be kept, and
/// the range and the length where these are known, in this order and nothing else.
pub proof fn law_stream_headers(
    mime: Seq<char>,
    status: u16,
    range: Seq<char>,
    start: nat,
    length: nat,
)
    ensures
        ({
            let always = seq![
                ("Content-Type"@, mime),
                ("Accept-Ranges"@, "bytes"@),
                ("Cache-Control"@, "private, max-age=120"@),
            ];
            let ranged = seq![("Content-Range"@, range)];
            let sized = seq![("Content-Length"@, number::decimal(length))];
            &&& stream_opening(mime, status, None, start, None).headers == always
            &&& stream_opening(mime, status, None, start, Some(length)).headers == always + sized
            &&& stream_opening(mime, status, Some(range), start, Some(length)).headers == always
                + ranged + sized
        }),
{
    let always = seq![
        ("Content-Type"@, mime),
        ("Accept-Ranges"@, "bytes"@),
        ("Cache-Control"@, "private, max-age=120"@),
    ];
    let ranged = seq![("Content-Range"@, range)];
    let sized = seq![("Content-Length"@, number::decimal(length))];
    assert(stream_headers(mime, None, Some(length)) =~= always + sized);
    assert(stream_headers(mime, Some(range), Some(length)) =~= always + ranged + sized);
}

/// Where no range is asked for, or none that can be read, everything is served.
pub proof fn law_without_a_range_everything_is_served(header: Seq<char>, total: nat)
    requires
        0 < total,
    ensures
        planned(None, total) == (Plan::Serve {
            status: 200,
            content_range: None,
            start: 0,
            length: Some(total),
        }),
        range_asked(header, total) is None ==> planned(Some(header), total) == planned(None, total),
        planned(Some(header), 0) == (Plan::Serve {
            status: 200,
            content_range: None,
            start: 0,
            length: None,
        }),
        planned(None, 0) == planned(Some(header), 0),
{
}

/// A range that ends before it begins cannot be served, and the answer says how much there is.
pub proof fn law_backward_range_is_refused(first: u64, last: u64, total: nat)
    requires
        last < first < total <= u64::MAX,
    ensures
        planned(
            Some("bytes="@ + number::decimal(first as nat) + "-"@ + number::decimal(last as nat)),
            total,
        ) == (Plan::Unsatisfiable { available: "bytes */"@ + number::decimal(total) }),
{
    lemma_range_text(first, number::decimal(last as nat), total);
    number::lemma_decimal(last as nat);
    lemma_number_untrimmed(last as nat);
}

/// A range header is `bytes=`, the first byte, a hyphen, and the last byte or nothing that is a
/// number, with white space around the two; the first byte has to be there. No other header asks
/// for a range.
pub proof fn law_range_header_is_read(front: Seq<char>, back: Seq<char>, total: nat)
    requires
        !front.contains('-'),
        total <= u64::MAX,
    ensures
        ({
            let asked = range_asked("bytes="@ + front + seq!['-'] + back, total);
            let first = number::read_unsigned(text::trimmed(front), u64::MAX as nat);
            let last = number::read_unsigned(text::trimmed(back), u64::MAX as nat);
            &&& asked is Some <==> first is Some && first->0 < total
            &&& asked matches Some((from, to)) ==> {
                &&& from == first->0
                &&& to is Some <==> last is Some
                &&& to is Some ==> to->0 == last->0
            }
        }),
        range_asked("bytes="@ + front, total) is None,
        !"bytes="@.is_prefix_of(front) ==> range_asked(front, total) is None,
{
    let v = front + seq!['-'] + back;
    let h = "bytes="@ + front + seq!['-'] + back;
    assert(h =~= "bytes="@ + v);
    text::law_prefix_and_remainder_make_the_text(h, "bytes="@, v);
    text::law_prefix_and_remainder_make_the_text(front, "bytes="@, front);
    lemma_first_hyphen(front, back);
    assert(v.take(front.len() as int) =~= front);
    assert(v.skip(front.len() as int + 1) =~= back);
    text::law_first_index_is_the_first(front, '-');
}

proof fn lemma_first_hyphen(front: Seq<char>, back: Seq<char>)
    requires
        !front.contains('-'),
    ensures
        text::first_index(front + seq!['-'] + back, '-') == front.len(),
{
    let v = front + seq!['-'] + back;
    text::law_first_index_is_the_first(v, '-');
    let k = text::first_index(v, '-');
    assert(v[front.len() as int] == '-');
    if k < front.len() {
        assert(front[k] == '-');
        assert(front.contains('-'));
    }
}

/// The token of the query counts before that of the header, which stands behind `Bearer `; any
/// other header presents none.
pub proof fn law_presented_token(token: Seq<char>, header: Option<Seq<char>>, other: Seq<char>)
    ensures
        presented(Some(token), header) == Some(token),
        presented(None, Some("Bearer "@ + token)) == Some(token),
        presented(None, None) is None,
        !"Bearer "@.is_prefix_of(other) ==> presented(None, Some(other)) is None,
{
    text::law_prefix_and_remainder_make_the_text(other, "Bearer "@, token);
}

/// A folder is named by its number, or as the home folder by one of three words; a segment with
/// anything but digits behind its first character is no number.
pub proof fn law_folder_segment(n: i64, segment: Seq<char>)
    ensures
        folder_named(number::signed_decimal(n as int)) == Some(Some(n)),
        folder_named("me"@) == Some(None::<i64>),
        folder_named("home"@) == Some(None::<i64>),
        folder_named("null"@) == Some(None::<i64>),
        folder_named(segment) == Some(None::<i64>) ==> segment == "me"@ || segment == "home"@
            || segment == "null"@,
        folder_named(segment) matches Some(Some(id)) ==> {
            &&& segment.len() > 0
            &&& segment[0] == '-' || segment[0] == '+' || '0' <= segment[0] <= '9'
            &&& forall|i: int| 1 <= i < segment.len() ==> '0' <= #[trigger] segment[i] <= '9'
        },
{
    let d = number::signed_decimal(n as int);
    number::law_signed_numbers_are_read(n as int);
    number::law_signed_numbers_fit(segment);
    reveal_strlit("me");
    reveal_strlit("home");
    reveal_strlit("null");
    number::law_signed_numbers_fit(d);
    assert("me"@[0] == 'm' && "home"@[0] == 'h' && "null"@[0] == 'n');
}

/// What media is served as, and how much of it there is.
pub proof fn law_media_is_served_as_it_is_described(name: String, size: i64, mime: String)
    ensures
        media_type(Media::Document { name, size, mime_type: Some(mime) }) == mime@,
        media_type(Media::Document { name, size, mime_type: None }) == "application/octet-stream"@,
        media_type(Media::Photo) == "application/octet-stream"@,
        media_type(Media::Other) == "application/octet-stream"@,
        forall|m: Option<String>|
            #![trigger media_size(Media::Document { name, size, mime_type: m })]
            media_size(Media::Document { name, size, mime_type: m }) == if size >= 0 {
                size as int
            } else {
                0
            },
        media_size(Media::Photo) == 0,
        media_size(Media::Other) == 0,
{
}

/// A reply has the status and the text that it is made with, and no headers.
pub proof fn law_text_reply(status: u16, body: Seq<char>)
    ensures
        text_reply(status, body).status == status,
        text_reply(status, body).body == body,
        text_reply(status, body).headers.len() == 0,
{
}

/// The views of replies, plans and streams hold every field as it is.
pub proof fn law_views_of_answers(r: HttpReply, s: StreamStart, p: RangePlan)
    ensures
        r@.status == r.status,
        r@.body == r.body@,
        r@.headers == Seq::new(
            r.headers@.len(),
            |i: int| (r.headers@[i].0@, r.headers@[i].1@),
        ),
        s@.status == s.status,
        s@.skip_chunks == s.skip_chunks,
        s@.cursor.first == s.cursor.first,
        s@.cursor.skip == s.cursor.intra_chunk_skip,
        s.cursor.remaining matches Some(n) ==> s@.cursor.remaining == Some(n as nat),
        s.cursor.remaining is None ==> s@.cursor.remaining is None,
        s@.headers == Seq::new(
            s.headers@.len(),
            |i: int| (s.headers@[i].0@, s.headers@[i].1@),
        ),
        match p {
            RangePlan::Unsatisfiable { available } => p@ == (Plan::Unsatisfiable {
                available: available@,
            }),
            RangePlan::Serve { status, content_range, start, length } => p@ == (Plan::Serve {
                status,
                content_range: match content_range {
                    Some(x) => Some(x@),
                    None => None,
                },
                start: start as nat,
                length: match length {
                    Some(x) => Some(x as nat),
                    None => None,
                },
            }),
        },
{
    assert(r@.headers =~= Seq::new(
        r.headers@.len(),
        |i: int| (r.headers@[i].0@, r.headers@[i].1@),
    ));
    assert(s@.headers =~= Seq::new(
        s.headers@.len(),
        |i: int| (s.headers@[i].0@, s.headers@[i].1@),
    ));
}

/// Whatever the header, the range that it asks for is served from its first byte to its last, or
/// to the end where it goes further or names none; the answer says which bytes these are.
pub proof fn law_asked_range_is_served(header: Seq<char>, total: nat, first: u64, last: Option<u64>)
    requires
        0 < total <= u64::MAX,
        range_asked(header, total) == Some((first, last)),
    ensures
        ({
            let end = if last is Some && last->0 < total {
                last->0 as int
            } else {
                total - 1
            };
            let plan = planned(Some(header), total);
            &&& first < total
            &&& end < first ==> plan == (Plan::Unsatisfiable {
                available: "bytes */"@ + number::decimal(total),
            })
            &&& end >= first ==> plan == (Plan::Serve {
                status: 206,
                content_range: Some(
                    "bytes "@ + number::decimal(first as nat) + "-"@ + number::decimal(end as nat)
                        + "/"@ + number::decimal(total),
                ),
                start: first as nat,
                length: Some((end - first + 1) as nat),
            })
        }),
{
}

} // verus!
