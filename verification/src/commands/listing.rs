//! Listing files: the messages of a folder, and the results of a search.
use vstd::prelude::*;

use crate::models::{FileEntry, FileMetadata, Media};
use crate::number;
use crate::text;

verus! {

/// How many messages of a folder are looked at.
pub const LISTING_LIMIT: usize = 500;

/// How many results a search asks for.
pub const SEARCH_LIMIT: i32 = 50;

/// The letters that can name a drive.
pub open spec fn drive_letter(c: char) -> bool {
    'a' <= c <= 'z' || 'A' <= c <= 'Z'
}

/// `name` means the same as a path on every system: it holds no backslash, and does not begin
/// with a drive, as `c:` is one, nor with two slashes.
pub open spec fn plain_name(name: Seq<char>) -> bool {
    &&& forall|i: int| 0 <= i < name.len() ==> #[trigger] name[i] != '\\'
    &&& name.len() >= 2 ==> !(drive_letter(name[0]) && name[1] == ':')
    &&& name.len() >= 2 ==> !(name[0] == '/' && name[1] == '/')
}

/// A path without the slashes and the `.` parts at its end.
pub open spec fn without_dot_parts(path: Seq<char>) -> Seq<char>
    decreases path.len(),
{
    let n = path.len() as int;
    if n > 0 && path[n - 1] == '/' {
        without_dot_parts(path.drop_last())
    } else if n > 0 && path[n - 1] == '.' && (n == 1 || path[n - 2] == '/') {
        without_dot_parts(path.drop_last())
    } else {
        path
    }
}

/// What stands behind the last slash of a path.
pub open spec fn last_part(path: Seq<char>) -> Seq<char> {
    let p = without_dot_parts(path);
    p.skip(last_index(p, '/') + 1)
}

/// Where the last `c` of `s` stands, or -1.
pub open spec fn last_index(s: Seq<char>, c: char) -> int
    decreases s.len(),
{
    if s.len() == 0 {
        -1
    } else if s.last() == c {
        s.len() - 1
    } else {
        last_index(s.drop_last(), c)
    }
}

/// What follows the last dot of a file name. A dot in front makes no extension.
pub open spec fn extension_of(name: Seq<char>) -> Option<Seq<char>> {
    let dot = last_index(name, '.');
    if dot <= 0 || name == ".."@ {
        None
    } else {
        Some(name.skip(dot + 1))
    }
}

/// A path with slashes in place of its backslashes.
pub open spec fn with_slashes(path: Seq<char>) -> Seq<char> {
    text::replace_char(path, '\\', '/')
}

/// A path begins with two separators, whichever.
pub open spec fn two_separators(path: Seq<char>) -> bool {
    let p = with_slashes(path);
    p.len() >= 2 && p[0] == '/' && p[1] == '/'
}

/// A path without the drive in front, where it has one.
pub open spec fn behind_drive(path: Seq<char>) -> Seq<char> {
    if path.len() >= 2 && drive_letter(path[0]) && path[1] == ':' {
        path.skip(2)
    } else {
        path
    }
}

/// What follows `\\server\share` in a path that begins so. The names `?` and `.` stand for no
/// server.
pub open spec fn behind_share(path: Seq<char>) -> Option<Seq<char>> {
    let p = with_slashes(path).skip(2);
    let server = text::first_index(p, '/');
    let q = p.skip(server + 1);
    let share = text::first_index(q, '/');
    if two_separators(path) && path[0] == '\\' && path[1] == '\\' && 0 < server < p.len() && share
        > 0 && p.take(server) != "?"@ && p.take(server) != "."@ {
        Some(q.skip(share))
    } else {
        None
    }
}

/// `ext` is the extension of `name` where slashes alone separate the parts of a path.
pub open spec fn slash_reading(name: Seq<char>, ext: Option<Seq<char>>) -> bool {
    ext == extension_of(last_part(name))
}

/// `ext` is the extension of `name` where backslashes do so too, and a path may begin with a
/// drive or a share. Of a path that begins with two separators and names no share, `ext` is the
/// extension of some stretch.
pub open spec fn backslash_reading(name: Seq<char>, ext: Option<Seq<char>>) -> bool {
    if !two_separators(name) {
        ext == extension_of(last_part(with_slashes(behind_drive(name))))
    } else if behind_share(name) is Some {
        ext == extension_of(last_part(behind_share(name)->0))
    } else {
        exists|i: int, j: int|
            0 <= i <= j <= name.len() && ext == extension_of(#[trigger] name.subrange(i, j))
    }
}

/// `ext` is the extension of `name`, in the reading of one system or of the other.
pub open spec fn extension_fits(name: Seq<char>, ext: Option<Seq<char>>) -> bool {
    slash_reading(name, ext) || backslash_reading(name, ext)
}

/// `std::path::Path::extension`: what follows the last dot of the last part of a path.
///
/// Separators and `.` parts at the end of the path count for nothing, and a last part `..` has
/// no extension. What separates parts depends on the system: slashes on most, slashes and
/// backslashes on Windows, where a path may begin with a drive or with a server and a share.
/// What Windows takes for the last part behind other beginnings of two separators is left open.
#[verifier::external_body]
fn path_extension(name: &str) -> (res: Option<String>)
    ensures
        extension_fits(name@, res.deep_view()),
{
    std::path::Path::new(name).extension().map(|ext| ext.to_string_lossy().into_owned())
}

/// The bits of a signed size, read as an unsigned one.
pub open spec fn size_bits(size: i64) -> u64 {
    if size < 0 {
        (size + 0x1_0000_0000_0000_0000) as u64
    } else {
        size as u64
    }
}

fn unsigned_size(size: i64) -> (res: u64)
    ensures
        res == size_bits(size),
{
    if size < 0 {
        (size as i128 + 0x1_0000_0000_0000_0000) as u64
    } else {
        size as u64
    }
}

/// A message of a folder.
#[derive(Debug, PartialEq)]
pub struct MessageInfo {
    pub id: i32,
    pub date: String,
    pub media: Option<Media>,
}

/// `f` is the file that a message with `media` stands for.
pub open spec fn lists_media(
    f: FileEntry,
    id: i32,
    date: Seq<char>,
    folder_id: Option<i64>,
    media: Media,
) -> bool {
    &&& f.id == id as i64
    &&& f.folder_id == folder_id
    &&& f.created_at == date
    &&& f.icon_type == "file"@
    &&& match media {
        Media::Document { name, size, mime_type } => {
            &&& f.name == name@
            &&& f.size == size_bits(size)
            &&& f.mime_type == mime_type.deep_view()
            &&& extension_fits(name@, f.file_ext)
        },
        Media::Photo => {
            &&& f.name == "Photo.jpg"@
            &&& f.size == 0
            &&& f.mime_type == Some("image/jpeg"@)
            &&& f.file_ext == Some("jpg"@)
        },
        Media::Other => {
            &&& f.name == "Unknown"@
            &&& f.size == 0
            &&& f.mime_type is None
            &&& f.file_ext is None
        },
    }
}

/// `files` are the files that the messages with media stand for, in their order.
pub open spec fn lists_messages(
    files: Seq<FileEntry>,
    messages: Seq<MessageInfo>,
    folder_id: Option<i64>,
) -> bool
    decreases messages.len(),
{
    if messages.len() == 0 {
        files.len() == 0
    } else {
        let m = messages.last();
        match m.media {
            Some(media) => {
                &&& files.len() > 0
                &&& lists_media(files.last(), m.id, m.date@, folder_id, media)
                &&& lists_messages(files.drop_last(), messages.drop_last(), folder_id)
            },
            None => lists_messages(files, messages.drop_last(), folder_id),
        }
    }
}

/// Begins to list a folder: how many messages to fetch, or `None` where there is no client and
/// the list is empty.
pub fn cmd_get_files(connected: bool) -> (res: Option<usize>)
    ensures
        res == if connected {
            Some(LISTING_LIMIT)
        } else {
            None
        },
{
    if connected {
        Some(LISTING_LIMIT)
    } else {
        None
    }
}

/// The file that a message with some media stands for.
pub fn file_of_media(id: i32, date: String, folder_id: Option<i64>, media: Media) -> (res:
    FileMetadata)
    ensures
        lists_media(res@, id, date@, folder_id, media),
{
    let (name, size, mime_type, file_ext): (String, u64, Option<String>, Option<String>) =
        match media {
        Media::Document { name, size, mime_type } => {
            let ext = path_extension(name.as_str());
            (name, unsigned_size(size), mime_type, ext)
        },
        Media::Photo => (
            "Photo.jpg".to_owned(),
            0,
            Some("image/jpeg".to_owned()),
            Some("jpg".to_owned()),
        ),
        Media::Other => ("Unknown".to_owned(), 0, None, None),
    };
    FileMetadata {
        id: id as i64,
        folder_id,
        name,
        size,
        mime_type,
        file_ext,
        created_at: date,
        icon_type: "file".to_owned(),
    }
}

/// The files that the messages of a folder stand for.
pub fn files_of_messages(messages: Vec<MessageInfo>, folder_id: Option<i64>) -> (res: Vec<
    FileMetadata,
>)
    ensures
        lists_messages(res.deep_view(), messages@, folder_id),
{
    let ghost all = messages@;
    let mut files: Vec<FileMetadata> = Vec::new();
    for message in it: messages
        invariant
            it.seq() == all,
            lists_messages(files.deep_view(), all.take(it.index()), folder_id),
    {
        let ghost before = files.deep_view();
        let ghost seen = all.take(it.index() + 1);
        assert(seen.drop_last() =~= all.take(it.index()));
        assert(seen.last() == message);
        if let Some(media) = message.media {
            let file = file_of_media(message.id, message.date, folder_id, media);
            files.push(file);
            assert(files.deep_view().drop_last() =~= before);
            assert(files.deep_view().last() == file@);
        }
    }
    assert(all.take(all.len() as int) =~= all);
    files
}

/// What a search asks for.
#[derive(Debug, PartialEq)]
pub struct SearchRequest {
    pub q: String,
    pub min_date: i32,
    pub max_date: i32,
    pub offset_rate: i32,
    pub offset_id: i32,
    pub limit: i32,
    pub folder_id: Option<i32>,
    pub broadcasts_only: bool,
    pub groups_only: bool,
    pub users_only: bool,
}

/// Begins a search through all chats, or `None` where there is no client and nothing is found.
pub fn cmd_search_global(query: String, connected: bool) -> (res: Option<SearchRequest>)
    ensures
        res is Some <==> connected,
        res matches Some(r) ==> {
            &&& r.q@ == query@
            &&& r.limit == SEARCH_LIMIT
            &&& r.min_date == 0 && r.max_date == 0
            &&& r.offset_rate == 0 && r.offset_id == 0
            &&& r.folder_id is None
            &&& !r.broadcasts_only && !r.groups_only && !r.users_only
        },
{
    if !connected {
        return None;
    }
    Some(
        SearchRequest {
            q: query,
            min_date: 0,
            max_date: 0,
            offset_rate: 0,
            offset_id: 0,
            limit: SEARCH_LIMIT,
            folder_id: None,
            broadcasts_only: false,
            groups_only: false,
            users_only: false,
        },
    )
}

/// A property of a document.
#[derive(Debug, PartialEq)]
pub enum DocAttribute {
    Filename(String),
    Other,
}

/// Where a message was found.
#[derive(Debug, Clone, Copy, PartialEq, Eq, Structural)]
pub enum FoundPeer {
    Channel(i64),
    User(i64),
    Chat(i64),
}

/// What a search finds.
#[derive(Debug, PartialEq)]
pub enum Found {
    Document {
        id: i32,
        date: i32,
        peer: FoundPeer,
        attributes: Vec<DocAttribute>,
        size: i64,
        mime_type: String,
    },
    Other,
}

/// The first file name among the properties of a document.
pub open spec fn filename_among(attributes: Seq<DocAttribute>) -> Seq<char>
    decreases attributes.len(),
{
    if attributes.len() == 0 {
        "Unknown"@
    } else {
        match attributes[0] {
            DocAttribute::Filename(name) => name@,
            DocAttribute::Other => filename_among(attributes.skip(1)),
        }
    }
}

/// The identifier of a peer of any kind.
pub open spec fn peer_number(peer: FoundPeer) -> i64 {
    match peer {
        FoundPeer::Channel(id) => id,
        FoundPeer::User(id) => id,
        FoundPeer::Chat(id) => id,
    }
}

/// `f` is the file that was found.
pub open spec fn lists_found(f: FileEntry, found: Found) -> bool {
    found matches Found::Document { id, date, peer, attributes, size, mime_type } && {
        &&& f.id == id as i64
        &&& f.folder_id == Some(peer_number(peer))
        &&& f.name == filename_among(attributes@)
        &&& f.size == size_bits(size)
        &&& f.mime_type == Some(mime_type@)
        &&& extension_fits(f.name, f.file_ext)
        &&& f.created_at == number::signed_decimal(date as int)
        &&& f.icon_type == "file"@
    }
}

/// `files` are the documents among what was found, in their order.
pub open spec fn lists_results(files: Seq<FileEntry>, found: Seq<Found>) -> bool
    decreases found.len(),
{
    if found.len() == 0 {
        files.len() == 0
    } else if found.last() is Document {
        &&& files.len() > 0
        &&& lists_found(files.last(), found.last())
        &&& lists_results(files.drop_last(), found.drop_last())
    } else {
        lists_results(files, found.drop_last())
    }
}

fn find_filename(attributes: &Vec<DocAttribute>) -> (res: String)
    ensures
        res@ == filename_among(attributes@),
{
    let mut i: usize = 0;
    assert(attributes@.skip(0) =~= attributes@);
    while i < attributes.len()
        invariant
            i <= attributes@.len(),
            filename_among(attributes@) == filename_among(attributes@.skip(i as int)),
        decreases attributes@.len() - i,
    {
        if let DocAttribute::Filename(name) = &attributes[i] {
            return name.clone();
        }
        assert(attributes@.skip(i as int).skip(1) =~= attributes@.skip(i + 1));
        i += 1;
    }
    "Unknown".to_owned()
}

/// The files among what a search found.
pub fn files_of_results(found: Vec<Found>) -> (res: Vec<FileMetadata>)
    ensures
        lists_results(res.deep_view(), found@),
{
    let ghost all = found@;
    let mut files: Vec<FileMetadata> = Vec::new();
    for item in it: found
        invariant
            it.seq() == all,
            lists_results(files.deep_view(), all.take(it.index())),
    {
        let ghost before = files.deep_view();
        let ghost seen = all.take(it.index() + 1);
        assert(seen.drop_last() =~= all.take(it.index()));
        assert(seen.last() == item);
        if let Found::Document { id, date, peer, attributes, size, mime_type } = item {
            let name = find_filename(&attributes);
            let file_ext = path_extension(name.as_str());
            let folder: i64 = match peer {
                FoundPeer::Channel(n) => n,
                FoundPeer::User(n) => n,
                FoundPeer::Chat(n) => n,
            };
            let file = FileMetadata {
                id: id as i64,
                folder_id: Some(folder),
                name,
                size: unsigned_size(size),
                mime_type: Some(mime_type),
                file_ext,
                created_at: number::write_signed(date as i64),
                icon_type: "file".to_owned(),
            };
            files.push(file);
            assert(files.deep_view().drop_last() =~= before);
            assert(files.deep_view().last() == file@);
        }
    }
    assert(all.take(all.len() as int) =~= all);
    files
}

/// A name without a backslash, and without a drive or two slashes in front, has the same
/// extension on every system.
pub proof fn law_plain_names_have_one_extension(name: Seq<char>, ext: Option<Seq<char>>)
    requires
        plain_name(name),
        extension_fits(name, ext),
    ensures
        ext == extension_of(last_part(name)),
{
    assert(with_slashes(name) =~= name);
}

/// A file is listed with the number, date, folder and symbol of its message; a document under
/// its own name, size and type, a photo and anything else under fixed ones.
pub proof fn law_listed_file_is_the_messages(
    f: FileEntry,
    id: i32,
    date: Seq<char>,
    folder_id: Option<i64>,
    media: Media,
)
    requires
        lists_media(f, id, date, folder_id, media),
    ensures
        f.id == id,
        f.folder_id == folder_id,
        f.created_at == date,
        f.icon_type == "file"@,
        media matches Media::Document { name, size, mime_type } ==> {
            &&& f.name == name@
            &&& size >= 0 ==> f.size == size
            &&& size < 0 ==> f.size == size + 0x1_0000_0000_0000_0000
            &&& mime_type matches Some(m) ==> f.mime_type == Some(m@)
            &&& mime_type is None ==> f.mime_type is None
            &&& plain_name(name@) ==> f.file_ext == extension_of(last_part(name@))
        },
        media is Photo ==> f.name == "Photo.jpg"@ && f.size == 0 && f.mime_type == Some(
            "image/jpeg"@,
        ) && f.file_ext == Some("jpg"@),
        media is Other ==> f.name == "Unknown"@ && f.size == 0 && f.mime_type is None
            && f.file_ext is None,
{
    if let Media::Document { name, .. } = media {
        if plain_name(name@) {
            law_plain_names_have_one_extension(name@, f.file_ext);
        }
    }
}

/// A listing has one file for each message with media, in the order of the messages, and no
/// other.
pub proof fn law_listing_has_every_message_with_media(
    files: Seq<FileEntry>,
    messages: Seq<MessageInfo>,
    folder_id: Option<i64>,
)
    requires
        lists_messages(files, messages, folder_id),
    ensures
        ({
            let kept = messages.filter(|m: MessageInfo| m.media is Some);
            &&& files.len() == kept.len()
            &&& forall|i: int|
                0 <= i < kept.len() ==> lists_media(
                    #[trigger] files[i],
                    kept[i].id,
                    kept[i].date@,
                    folder_id,
                    kept[i].media->0,
                )
        }),
    decreases messages.len(),
{
    reveal(Seq::filter);
    let with_media = |m: MessageInfo| m.media is Some;
    if messages.len() > 0 {
        let m = messages.last();
        let before = messages.drop_last();
        let kept = messages.filter(with_media);
        let kept_before = before.filter(with_media);
        if m.media is Some {
            law_listing_has_every_message_with_media(files.drop_last(), before, folder_id);
            assert(kept == kept_before.push(m));
            assert forall|i: int| 0 <= i < kept.len() implies lists_media(
                #[trigger] files[i],
                kept[i].id,
                kept[i].date@,
                folder_id,
                kept[i].media->0,
            ) by {
                if i < kept_before.len() {
                    assert(files[i] == files.drop_last()[i]);
                }
            }
        } else {
            law_listing_has_every_message_with_media(files, before, folder_id);
        }
    }
}

/// A document that was found is listed with its number, date, size and type, the number of the
/// chat it was found in, and the first file name it has.
pub proof fn law_found_file_is_the_documents(
    f: FileEntry,
    id: i32,
    date: i32,
    peer: FoundPeer,
    attributes: Vec<DocAttribute>,
    size: i64,
    mime_type: String,
    k: int,
)
    requires
        lists_found(f, Found::Document { id, date, peer, attributes, size, mime_type }),
        0 <= k <= attributes@.len(),
        forall|i: int| 0 <= i < k ==> #[trigger] attributes@[i] is Other,
        k < attributes@.len() ==> attributes@[k] is Filename,
    ensures
        f.id == id,
        f.created_at == number::signed_decimal(date as int),
        f.icon_type == "file"@,
        f.mime_type == Some(mime_type@),
        size >= 0 ==> f.size == size,
        size < 0 ==> f.size == size + 0x1_0000_0000_0000_0000,
        peer matches FoundPeer::Channel(n) ==> f.folder_id == Some(n),
        peer matches FoundPeer::User(n) ==> f.folder_id == Some(n),
        peer matches FoundPeer::Chat(n) ==> f.folder_id == Some(n),
        k < attributes@.len() ==> (attributes@[k] matches DocAttribute::Filename(name) && f.name
            == name@),
        k == attributes@.len() ==> f.name == "Unknown"@,
        plain_name(f.name) ==> f.file_ext == extension_of(last_part(f.name)),
{
    lemma_first_filename(attributes@, k);
    if plain_name(f.name) {
        law_plain_names_have_one_extension(f.name, f.file_ext);
    }
}

proof fn lemma_first_filename(attributes: Seq<DocAttribute>, k: int)
    requires
        0 <= k <= attributes.len(),
        forall|i: int| 0 <= i < k ==> #[trigger] attributes[i] is Other,
        k < attributes.len() ==> attributes[k] is Filename,
    ensures
        filename_among(attributes) == if k < attributes.len() {
            attributes[k]->0@
        } else {
            "Unknown"@
        },
    decreases k,
{
    if k > 0 {
        let rest = attributes.skip(1);
        assert(attributes[0] is Other);
        assert forall|i: int| 0 <= i < k - 1 implies #[trigger] rest[i] is Other by {
            assert(rest[i] == attributes[i + 1]);
        }
        lemma_first_filename(rest, k - 1);
    }
}

/// A search lists one file for each document that was found, in the order of the results, and no
/// other.
pub proof fn law_search_lists_every_document(files: Seq<FileEntry>, found: Seq<Found>)
    requires
        lists_results(files, found),
    ensures
        ({
            let kept = found.filter(|f: Found| f is Document);
            &&& files.len() == kept.len()
            &&& forall|i: int|
                0 <= i < kept.len() ==> lists_found(#[trigger] files[i], kept[i])
        }),
    decreases found.len(),
{
    reveal(Seq::filter);
    let documents = |f: Found| f is Document;
    if found.len() > 0 {
        let before = found.drop_last();
        let kept = found.filter(documents);
        let kept_before = before.filter(documents);
        if found.last() is Document {
            law_search_lists_every_document(files.drop_last(), before);
            assert(kept == kept_before.push(found.last()));
            assert forall|i: int| 0 <= i < kept.len() implies lists_found(
                #[trigger] files[i],
                kept[i],
            ) by {
                if i < kept_before.len() {
                    assert(files[i] == files.drop_last()[i]);
                }
            }
        } else {
            law_search_lists_every_document(files, before);
        }
    }
}

/// The extension is what stands behind the last dot of a name with something in front of it;
/// without such a dot there is none.
pub proof fn law_extension_is_behind_the_last_dot(stem: Seq<char>, ext: Seq<char>)
    requires
        !ext.contains('.'),
    ensures
        stem.len() > 0 && stem + seq!['.'] + ext != ".."@ ==> extension_of(
            stem + seq!['.'] + ext,
        ) == Some(ext),
        extension_of(ext) is None,
        extension_of(seq!['.'] + ext) is None,
        extension_of(".."@) is None,
{
    let name = stem + seq!['.'] + ext;
    lemma_last_index(name, '.', stem.len() as int);
    assert(name.skip(stem.len() as int + 1) =~= ext);
    lemma_last_index(ext, '.', -1);
    lemma_last_index(seq!['.'] + ext, '.', 0);
}

proof fn lemma_last_index(s: Seq<char>, c: char, k: int)
    requires
        -1 <= k < s.len(),
        k >= 0 ==> s[k] == c,
        forall|i: int| k < i < s.len() ==> #[trigger] s[i] != c,
    ensures
        last_index(s, c) == k,
    decreases s.len(),
{
    if s.len() > 0 && k < s.len() - 1 {
        assert(s[s.len() - 1] != c);
        let front = s.drop_last();
        assert forall|i: int| k < i < front.len() implies #[trigger] front[i] != c by {
            assert(front[i] == s[i]);
        }
        lemma_last_index(front, c, k);
    }
}

/// The last part of a path is the name behind its last slash; a name without slashes is its own
/// last part, and slashes at the end count for nothing.
pub proof fn law_last_part_is_the_name(dir: Seq<char>, name: Seq<char>)
    requires
        name.len() > 0,
        !name.contains('/'),
        name != seq!['.'],
    ensures
        last_part(name) == name,
        last_part(dir + seq!['/'] + name) == name,
        last_part((dir + seq!['/'] + name).push('/')) == name,
{
    let path = dir + seq!['/'] + name;
    let n = name.len() as int;
    assert(name[n - 1] != '/') by {
        if name[n - 1] == '/' {
            assert(name.contains('/'));
        }
    }
    if n >= 2 {
        assert(name[n - 2] != '/') by {
            if name[n - 2] == '/' {
                assert(name.contains('/'));
            }
        }
        assert(path[path.len() - 2] == name[n - 2]);
    } else {
        assert(name[0] != '.') by {
            if name[0] == '.' {
                assert(name =~= seq!['.']);
            }
        }
    }
    assert(path.last() == name[n - 1]);
    assert(without_dot_parts(name) == name);
    assert(without_dot_parts(path) == path);
    let closed = path.push('/');
    assert(closed.drop_last() =~= path);
    assert(without_dot_parts(closed) == path);
    assert forall|i: int| -1 < i < name.len() implies #[trigger] name[i] != '/' by {
        if name[i] == '/' {
            assert(name.contains('/'));
        }
    }
    lemma_last_index(name, '/', -1);
    assert(name.skip(0) =~= name);
    assert forall|i: int| dir.len() < i < path.len() implies #[trigger] path[i] != '/' by {
        assert(path[i] == name[i - dir.len() - 1]);
    }
    lemma_last_index(path, '/', dir.len() as int);
    assert(path.skip(dir.len() as int + 1) =~= name);
}

} // verus!
