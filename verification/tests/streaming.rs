use omnisync::commands::streaming::{
    cmd_get_stream_info, rotate_stream_token, set_stream_token, StreamConfig,
};
use omnisync::cursor::StreamCursor;
use omnisync::models::Media;
use omnisync::server::{
    accept_request, allowed_origins, authorized, bound_port, mime_type_from_media, open_stream,
    parse_folder_id, parse_range, plan_range, port_to_bind, require_client, require_media,
    require_peer, HttpReply, RangePlan, STREAM_CHUNK,
};
use omnisync::{generate_stream_token, STREAM_PORT};

fn document(size: i64) -> Media {
    Media::Document {
        name: "film.mp4".to_string(),
        size,
        mime_type: Some("video/mp4".to_string()),
    }
}

fn text_reply(status: u16, body: &str) -> HttpReply {
    HttpReply { status, headers: Vec::new(), body: body.to_string() }
}

fn pair(name: &str, value: &str) -> (String, String) {
    (name.to_string(), value.to_string())
}

fn is_lower_hex(s: &str) -> bool {
    s.chars().all(|c| c.is_ascii_digit() || ('a'..='f').contains(&c))
}

#[test]
fn tokens_are_sixteen_bytes_in_hexadecimal() {
    let a = generate_stream_token();
    let b = generate_stream_token();
    assert_eq!(a.len(), 32);
    assert!(is_lower_hex(&a) && is_lower_hex(&b));
    assert_ne!(a, b);
}

#[test]
fn the_address_names_the_bound_port() {
    let mut config = StreamConfig { token: "abc".to_string(), port: STREAM_PORT };
    let info = cmd_get_stream_info(&config).unwrap();
    assert_eq!(info.token, "abc");
    assert_eq!(info.base_url, "http://localhost:14201");
    set_stream_token(&mut config, "def".to_string());
    assert_eq!((config.token.as_str(), config.port), ("def", STREAM_PORT));
    rotate_stream_token(&mut config);
    assert_ne!(config.token, "def");
    assert_eq!(config.token.len(), 32);
    assert_eq!(config.port, STREAM_PORT);
}

#[test]
fn the_query_token_counts_before_the_header() {
    let t = |s: &str| Some(s.to_string());
    assert!(authorized(t("k"), None, "k"));
    assert!(authorized(t("k"), t("Bearer wrong"), "k"));
    assert!(!authorized(t("wrong"), t("Bearer k"), "k"));
    assert!(authorized(None, t("Bearer k"), "k"));
    assert!(!authorized(None, t("bearer k"), "k"));
    assert!(!authorized(None, t("k"), "k"));
    assert!(!authorized(None, None, "k"));
    assert!(!authorized(None, None, ""));
    assert!(authorized(None, t("Bearer "), ""));
}

#[test]
fn folders_are_home_or_a_number() {
    assert_eq!(parse_folder_id("me"), Some(None));
    assert_eq!(parse_folder_id("home"), Some(None));
    assert_eq!(parse_folder_id("null"), Some(None));
    assert_eq!(parse_folder_id("-1001"), Some(Some(-1001)));
    assert_eq!(parse_folder_id("42"), Some(Some(42)));
    assert_eq!(parse_folder_id("Me"), None);
    assert_eq!(parse_folder_id(""), None);
    assert_eq!(parse_folder_id("9223372036854775808"), None);
}

#[test]
fn refused_requests_are_answered() {
    let token = || Some("k".to_string());
    assert_eq!(accept_request("7", token(), None, "k"), Ok(Some(7)));
    assert_eq!(accept_request("home", token(), None, "k"), Ok(None));
    assert_eq!(
        accept_request("x", None, None, "k"),
        Err(text_reply(403, "Invalid or missing stream token"))
    );
    assert_eq!(
        accept_request("x", token(), None, "k"),
        Err(text_reply(400, "Invalid folder ID"))
    );
    assert_eq!(require_client(true), Ok(()));
    assert_eq!(require_client(false), Err(text_reply(503, "Telegram client not connected")));
    assert_eq!(require_peer(Ok(())), Ok(()));
    assert_eq!(
        require_peer(Err("no".to_string())),
        Err(text_reply(400, "Peer resolution failed: no"))
    );
}

#[test]
fn media_is_taken_from_the_first_message() {
    assert_eq!(require_media(Ok(vec![Some(Some(Media::Photo)), None])), Ok(Media::Photo));
    assert_eq!(require_media(Ok(vec![])), Err(text_reply(404, "Message not found")));
    assert_eq!(
        require_media(Ok(vec![None, Some(Some(Media::Photo))])),
        Err(text_reply(404, "Message not found"))
    );
    assert_eq!(require_media(Ok(vec![Some(None)])), Err(text_reply(404, "Media not found")));
    assert_eq!(
        require_media(Err("gone".to_string())),
        Err(text_reply(500, "Failed to fetch message: gone"))
    );
}

#[test]
fn media_types() {
    assert_eq!(mime_type_from_media(&document(1)), "video/mp4");
    let bare = Media::Document { name: String::new(), size: 1, mime_type: None };
    assert_eq!(mime_type_from_media(&bare), "application/octet-stream");
    assert_eq!(mime_type_from_media(&Media::Photo), "application/octet-stream");
    assert_eq!(mime_type_from_media(&Media::Other), "application/octet-stream");
}

#[test]
fn ranges_are_read() {
    assert_eq!(parse_range("bytes=0-", 10), Some((0, None)));
    assert_eq!(parse_range("bytes=2-5", 10), Some((2, Some(5))));
    assert_eq!(parse_range("bytes= 2 - 5 ", 10), Some((2, Some(5))));
    assert_eq!(parse_range("bytes=2-x", 10), Some((2, None)));
    assert_eq!(parse_range("bytes=2-5,7-8", 10), Some((2, None)));
    assert_eq!(parse_range("bytes=+2-+5", 10), Some((2, Some(5))));
    assert_eq!(parse_range("bytes=9-3", 10), Some((9, Some(3))));
    assert_eq!(parse_range("bytes=10-", 10), None);
    assert_eq!(parse_range("bytes=-5", 10), None);
    assert_eq!(parse_range("bytes=5", 10), None);
    assert_eq!(parse_range("byte=0-1", 10), None);
    assert_eq!(parse_range("bytes=0-18446744073709551616", 10), Some((0, None)));
}

#[test]
fn plans_for_ranges() {
    assert_eq!(
        plan_range(Some("bytes=2-5"), 10),
        RangePlan::Serve {
            status: 206,
            content_range: Some("bytes 2-5/10".to_string()),
            start: 2,
            length: Some(4),
        }
    );
    assert_eq!(
        plan_range(Some("bytes=8-99"), 10),
        RangePlan::Serve {
            status: 206,
            content_range: Some("bytes 8-9/10".to_string()),
            start: 8,
            length: Some(2),
        }
    );
    assert_eq!(
        plan_range(Some("bytes=4-"), 10),
        RangePlan::Serve {
            status: 206,
            content_range: Some("bytes 4-9/10".to_string()),
            start: 4,
            length: Some(6),
        }
    );
    let whole = || RangePlan::Serve {
        status: 200,
        content_range: None,
        start: 0,
        length: Some(10),
    };
    assert_eq!(plan_range(None, 10), whole());
    assert_eq!(plan_range(Some("bytes=10-"), 10), whole());
    assert_eq!(
        plan_range(Some("bytes=9-3"), 10),
        RangePlan::Unsatisfiable { available: "bytes */10".to_string() }
    );
    assert_eq!(
        plan_range(Some("bytes=0-1"), 0),
        RangePlan::Serve { status: 200, content_range: None, start: 0, length: None }
    );
}

#[test]
fn streams_are_opened_at_the_right_chunk() {
    let chunk = STREAM_CHUNK as u64;
    let header = format!("bytes={}-{}", 3 * chunk + 17, 4 * chunk);
    let total = 10 * chunk as i64;
    let start = open_stream(&document(total), Some(header.as_str())).unwrap();
    assert_eq!(start.status, 206);
    assert_eq!(start.skip_chunks, 3);
    assert_eq!(start.cursor, StreamCursor::open(17, Some(chunk - 16)));
    assert_eq!(
        start.headers,
        vec![
            pair("Content-Type", "video/mp4"),
            pair("Accept-Ranges", "bytes"),
            pair("Cache-Control", "private, max-age=120"),
            pair("Content-Range", "bytes 1572881-2097152/5242880"),
            pair("Content-Length", "524272"),
        ]
    );
    let all = open_stream(&Media::Photo, Some("bytes=5-6")).unwrap();
    assert_eq!((all.status, all.skip_chunks), (200, 0));
    assert_eq!(all.cursor, StreamCursor::open(0, None));
    assert_eq!(all.headers.len(), 3);
    let negative = open_stream(&document(-3), None).unwrap();
    assert_eq!(negative.cursor, StreamCursor::open(0, None));
}

#[test]
fn the_chunk_number_is_cut_to_32_bits() {
    let far: u64 = (STREAM_CHUNK as u64) * 0x8000_0001 + 5;
    let header = format!("bytes={}-", far);
    let start = open_stream(&document(i64::MAX), Some(header.as_str())).unwrap();
    assert_eq!(start.skip_chunks, 0x8000_0001u32 as i32);
    assert_eq!(start.cursor.intra_chunk_skip, 5);
}

#[test]
fn unsatisfiable_ranges_are_answered() {
    assert_eq!(
        open_stream(&document(10), Some("bytes=9-3")),
        Err(HttpReply {
            status: 416,
            headers: vec![pair("Content-Range", "bytes */10")],
            body: String::new(),
        })
    );
}

fn run(mut cursor: StreamCursor, chunks: &[Vec<u8>]) -> Vec<u8> {
    let mut out = Vec::new();
    for chunk in chunks {
        if !cursor.wants_more() {
            break;
        }
        out.extend(cursor.accept(chunk.clone()));
    }
    out
}

#[test]
fn a_range_receives_exactly_its_bytes() {
    let content: Vec<u8> = (0..100u8).collect();
    let size = 16usize;
    for start in 0..100usize {
        for length in 0..=(100 - start) {
            let chunks: Vec<Vec<u8>> =
                content[start / size * size..].chunks(size).map(|c| c.to_vec()).collect();
            let got = run(StreamCursor::open(start % size, Some(length as u64)), &chunks);
            assert_eq!(got, content[start..start + length].to_vec());
        }
    }
}

#[test]
fn a_stream_of_unknown_length_passes_everything_on() {
    let chunks = vec![vec![1, 2, 3], vec![], vec![4]];
    assert_eq!(run(StreamCursor::open(0, None), &chunks), vec![1, 2, 3, 4]);
}

#[test]
fn a_short_first_chunk_is_not_cut() {
    let mut cursor = StreamCursor::open(5, Some(4));
    assert_eq!(cursor.accept(vec![1, 2, 3]), vec![1, 2, 3]);
    assert_eq!(cursor.accept(vec![4, 5, 6]), vec![4]);
    assert!(!cursor.wants_more());
}

#[test]
fn ports_and_origins() {
    assert_eq!(port_to_bind(14201, false), 14201);
    assert_eq!(port_to_bind(14201, true), 0);
    assert_eq!(bound_port(&vec![5000, 6000], 14201), 5000);
    assert_eq!(bound_port(&vec![], 14201), 14201);
    assert_eq!(
        allowed_origins(),
        vec!["tauri://localhost", "http://localhost:1420", "https://tauri.localhost"]
    );
}
