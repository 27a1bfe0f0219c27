//! Listing the files of a Google Drive folder, page by page.
use vstd::prelude::*;

use crate::models::{DriveEntry, GDriveFile};
use crate::pairs;

verus! {

/// Where files are listed.
pub const FILES_URL: &'static str = "https://www.googleapis.com/drive/v3/files";

/// No more files than this are listed.
pub const MAX_TOTAL: usize = 5000;

/// A file as Google Drive describes it.
#[derive(Debug, PartialEq)]
pub struct DriveChangeFile {
    pub id: String,
    pub name: String,
    pub mime_type: String,
    pub size: Option<String>,
    pub modified_time: Option<String>,
    pub parents: Option<Vec<String>>,
    pub trashed: Option<bool>,
}

/// What a `DriveChangeFile` says.
pub struct ChangeFile {
    pub entry: DriveEntry,
    pub trashed: Option<bool>,
}

impl View for DriveChangeFile {
    type V = ChangeFile;

    open spec fn view(&self) -> ChangeFile {
        ChangeFile {
            entry: DriveEntry {
                id: self.id@,
                name: self.name@,
                mime_type: self.mime_type@,
                size: self.size.deep_view(),
                modified_time: self.modified_time.deep_view(),
                parents: self.parents.deep_view(),
            },
            trashed: self.trashed,
        }
    }
}

impl DeepView for DriveChangeFile {
    type V = ChangeFile;

    open spec fn deep_view(&self) -> ChangeFile {
        self@
    }
}

/// A page of a listing.
#[derive(Debug, PartialEq)]
pub struct DriveFileListResponse {
    pub files: Option<Vec<DriveChangeFile>>,
    pub next_page_token: Option<String>,
}

/// What a `DriveFileListResponse` says.
pub struct Page {
    pub files: Option<Seq<ChangeFile>>,
    pub next_page_token: Option<Seq<char>>,
}

impl View for DriveFileListResponse {
    type V = Page;

    open spec fn view(&self) -> Page {
        Page {
            files: self.files.deep_view(),
            next_page_token: self.next_page_token.deep_view(),
        }
    }
}

/// The characters of a folder's identifier.
pub open spec fn id_char(c: char) -> bool {
    ||| 'a' <= c <= 'z'
    ||| 'A' <= c <= 'Z'
    ||| '0' <= c <= '9'
    ||| c == '_'
    ||| c == '-'
}

/// `s` can be put into a query as a folder's identifier.
pub open spec fn valid_folder(s: Seq<char>) -> bool {
    forall|i: int| 0 <= i < s.len() ==> id_char(#[trigger] s[i])
}

/// The folder to list; the top one where none is given.
pub open spec fn folder_or_root(folder: Option<Seq<char>>) -> Seq<char> {
    match folder {
        Some(f) => f,
        None => "root"@,
    }
}

/// The query for the files in a folder.
pub open spec fn folder_query(folder: Seq<char>) -> Seq<char> {
    "'"@ + folder + "' in parents and trashed = false"@
}

/// A listing under way.
#[derive(Debug, PartialEq)]
pub struct FileListing {
    pub query: String,
    pub page_token: Option<String>,
    pub all: Vec<GDriveFile>,
}

/// What a `FileListing` says.
pub struct Listing {
    pub query: Seq<char>,
    pub page_token: Option<Seq<char>>,
    pub all: Seq<DriveEntry>,
}

impl View for FileListing {
    type V = Listing;

    open spec fn view(&self) -> Listing {
        Listing {
            query: self.query@,
            page_token: self.page_token.deep_view(),
            all: self.all.deep_view(),
        }
    }
}

/// The files on a page.
pub open spec fn page_entries(page: Page) -> Seq<DriveEntry> {
    match page.files {
        Some(files) => files.map_values(|f: ChangeFile| f.entry),
        None => Seq::empty(),
    }
}

/// Files, as many as may be listed.
pub open spec fn at_most_total(all: Seq<DriveEntry>) -> Seq<DriveEntry> {
    if all.len() > MAX_TOTAL {
        all.take(MAX_TOTAL as int)
    } else {
        all
    }
}

/// The page that is to follow: none once there are files enough, or no page is announced.
pub open spec fn follows(listing: Listing, page: Page) -> bool {
    &&& (listing.all + page_entries(page)).len() < MAX_TOTAL
    &&& page.next_page_token is Some
    &&& page.next_page_token->0.len() > 0
}

/// The listing after a page.
pub open spec fn with_page(listing: Listing, page: Page) -> Listing {
    Listing {
        all: at_most_total(listing.all + page_entries(page)),
        page_token: if follows(listing, page) {
            page.next_page_token
        } else {
            listing.page_token
        },
        ..listing
    }
}

/// The form that asks for a page.
pub open spec fn page_request(listing: Listing) -> Seq<(Seq<char>, Seq<char>)> {
    let always = seq![
        ("q"@, listing.query),
        ("fields"@, "nextPageToken,files(id,name,mimeType,size,modifiedTime,parents)"@),
        ("pageSize"@, "200"@),
    ];
    match listing.page_token {
        Some(t) => always.push(("pageToken"@, t)),
        None => always,
    }
}

fn check_id_char(c: char) -> (res: bool)
    ensures
        res == id_char(c),
{
    ('a' <= c && c <= 'z') || ('A' <= c && c <= 'Z') || ('0' <= c && c <= '9') || c == '_' || c
        == '-'
}

fn check_folder(s: &str) -> (res: bool)
    ensures
        res == valid_folder(s@),
{
    let cs = crate::text::chars_of(s);
    let mut i: usize = 0;
    while i < cs.len()
        invariant
            cs@ == s@,
            i <= cs@.len(),
            forall|j: int| 0 <= j < i ==> id_char(#[trigger] s@[j]),
        decreases cs@.len() - i,
    {
        if !check_id_char(cs[i]) {
            assert(!id_char(s@[i as int]));
            return false;
        }
        i += 1;
    }
    true
}

/// Begins to list a folder, if its identifier can be one.
pub fn cmd_gdrive_list_files(folder_id: Option<String>) -> (res: Result<FileListing, String>)
    ensures
        ({
            let folder = folder_or_root(folder_id.deep_view());
            match res {
                Ok(listing) => valid_folder(folder) && listing@ == (Listing {
                    query: folder_query(folder),
                    page_token: None,
                    all: Seq::empty(),
                }),
                Err(e) => !valid_folder(folder) && e@ == "Invalid folder_id"@,
            }
        }),
{
    let folder = match folder_id {
        Some(f) => f,
        None => "root".to_owned(),
    };
    if !check_folder(folder.as_str()) {
        return Err("Invalid folder_id".to_owned());
    }
    let mut query = "'".to_owned();
    query.append(folder.as_str());
    query.append("' in parents and trashed = false");
    let listing = FileListing { query, page_token: None, all: Vec::new() };
    assert(listing@.all =~= Seq::empty());
    Ok(listing)
}

impl FileListing {
    /// The form that asks for the next page.
    pub fn params(&self) -> (res: Vec<(String, String)>)
        ensures
            res.deep_view() == page_request(self@),
    {
        let mut form = pairs::no_pairs();
        pairs::add_pair(&mut form, "q", self.query.clone());
        pairs::add_pair(
            &mut form,
            "fields",
            "nextPageToken,files(id,name,mimeType,size,modifiedTime,parents)".to_owned(),
        );
        pairs::add_pair(&mut form, "pageSize", "200".to_owned());
        assert(form.deep_view() =~= seq![
            ("q"@, self.query@),
            ("fields"@, "nextPageToken,files(id,name,mimeType,size,modifiedTime,parents)"@),
            ("pageSize"@, "200"@),
        ]);
        if let Some(t) = &self.page_token {
            pairs::add_pair(&mut form, "pageToken", t.clone());
        }
        form
    }

    /// Takes in a page. The answer is whether another one follows.
    pub fn on_page(&mut self, page: DriveFileListResponse) -> (res: bool)
        requires
            old(self)@.all.len() < MAX_TOTAL,
        ensures
            final(self)@ == with_page(old(self)@, page@),
            res == follows(old(self)@, page@),
            forall|i: int|
                0 <= i < old(self).all@.len() ==> #[trigger] final(self).all@[i]
                    == old(self).all@[i],
            match page.files {
                Some(files) => {
                    let n = old(self).all@.len() as int;
                    &&& n + files@.len() <= 5000 ==> final(self).all@.len() == n + files@.len()
                    &&& n + files@.len() > 5000 ==> final(self).all@.len() == 5000
                    &&& forall|i: int|
                        n <= i < final(self).all@.len() ==> {
                            let listed = #[trigger] final(self).all@[i];
                            &&& listed.id == files@[i - n].id
                            &&& listed.name == files@[i - n].name
                            &&& listed.mime_type == files@[i - n].mime_type
                            &&& listed.size == files@[i - n].size
                            &&& listed.modified_time == files@[i - n].modified_time
                            &&& listed.parents == files@[i - n].parents
                        }
                },
                None => final(self).all@.len() == old(self).all@.len(),
            },
    {
        let ghost before = self@.all;
        let ghost coming = page_entries(page@);
        let files: Vec<DriveChangeFile> = match page.files {
            Some(files) => files,
            None => Vec::new(),
        };
        let ghost listed = files@;
        let ghost n = self.all@.len() as int;
        assert(coming =~= Seq::new(listed.len(), |i: int| listed[i]@.entry));
        assert(before + coming.take(0) =~= before);
        for f in it: files
            invariant
                it.seq() == listed,
                coming == Seq::new(listed.len(), |i: int| listed[i]@.entry),
                before == old(self)@.all,
                coming == page_entries(page@),
                self.all.deep_view() == before + coming.take(it.index()),
                self.all@.len() < MAX_TOTAL,
                n == old(self).all@.len(),
                self.all@.len() == n + it.index(),
                forall|i: int| 0 <= i < n ==> #[trigger] self.all@[i] == old(self).all@[i],
                forall|i: int|
                    n <= i < self.all@.len() ==> {
                        let shown = #[trigger] self.all@[i];
                        &&& shown.id == listed[i - n].id
                        &&& shown.name == listed[i - n].name
                        &&& shown.mime_type == listed[i - n].mime_type
                        &&& shown.size == listed[i - n].size
                        &&& shown.modified_time == listed[i - n].modified_time
                        &&& shown.parents == listed[i - n].parents
                    },
                page.files matches Some(fs) ==> fs@ == listed,
                page.files is None ==> listed.len() == 0,
                self.query == old(self).query,
                self.page_token == old(self).page_token,
        {
            let ghost i = it.index();
            let ghost was = self.all.deep_view();
            let file = GDriveFile {
                id: f.id,
                name: f.name,
                mime_type: f.mime_type,
                size: f.size,
                modified_time: f.modified_time,
                parents: f.parents,
            };
            self.all.push(file);
            proof {
                assert(file@ == coming[i]);
                assert(self.all.deep_view() =~= was.push(coming[i]));
                assert(was.push(coming[i]) =~= before + coming.take(i + 1));
            }
            if self.all.len() >= MAX_TOTAL {
                assert(before + coming.take(i + 1) =~= (before + coming).take(MAX_TOTAL as int));
                assert(at_most_total(before + coming) =~= before + coming.take(i + 1));
                return false;
            }
        }
        assert(coming.take(coming.len() as int) =~= coming);
        match page.next_page_token {
            Some(t) => if t.as_str().is_empty() {
                false
            } else {
                self.page_token = Some(t);
                true
            },
            None => false,
        }
    }
}

/// All files on a row of pages.
pub open spec fn entries_on(pages: Seq<Page>) -> Seq<DriveEntry>
    decreases pages.len(),
{
    if pages.len() == 0 {
        Seq::empty()
    } else {
        page_entries(pages[0]) + entries_on(pages.skip(1))
    }
}

/// What a listing gathers from a row of pages, of which it reads as many as it asks for.
pub open spec fn gathered(listing: Listing, pages: Seq<Page>) -> Seq<DriveEntry>
    decreases pages.len(),
{
    if pages.len() == 0 {
        listing.all
    } else if follows(listing, pages[0]) {
        gathered(with_page(listing, pages[0]), pages.skip(1))
    } else {
        with_page(listing, pages[0]).all
    }
}

/// Where every page but the last announces another, a listing gathers the files of all pages
/// in their order, up to the most that may be listed.
pub proof fn law_listing_gathers_every_page(listing: Listing, pages: Seq<Page>)
    requires
        listing.all.len() < MAX_TOTAL,
        forall|i: int|
            0 <= i < pages.len() - 1 ==> (#[trigger] pages[i]).next_page_token is Some
                && pages[i].next_page_token->0.len() > 0,
    ensures
        gathered(listing, pages) == at_most_total(listing.all + entries_on(pages)),
    decreases pages.len(),
{
    if pages.len() == 0 {
        assert(listing.all + Seq::<DriveEntry>::empty() =~= listing.all);
    } else {
        let rest = pages.skip(1);
        let next = with_page(listing, pages[0]);
        let so_far = listing.all + page_entries(pages[0]);
        assert(listing.all + entries_on(pages) =~= so_far + entries_on(rest));
        if follows(listing, pages[0]) {
            assert forall|i: int| 0 <= i < rest.len() - 1 implies (
            #[trigger] rest[i]).next_page_token is Some && rest[i].next_page_token->0.len()
                > 0 by {
                assert(rest[i] == pages[i + 1]);
            }
            law_listing_gathers_every_page(next, rest);
        } else if so_far.len() >= MAX_TOTAL {
            assert(at_most_total(so_far) =~= at_most_total(so_far + entries_on(rest)));
        } else {
            assert(pages.len() == 1) by {
                if pages.len() > 1 {
                    assert(pages[0].next_page_token is Some);
                }
            }
            assert(so_far + entries_on(rest) =~= so_far);
        }
    }
}

/// A listing never holds more than the most that may be listed.
pub proof fn law_listing_is_bounded(listing: Listing, pages: Seq<Page>)
    requires
        listing.all.len() <= MAX_TOTAL,
    ensures
        gathered(listing, pages).len() <= MAX_TOTAL,
    decreases pages.len(),
{
    if pages.len() > 0 && follows(listing, pages[0]) {
        law_listing_is_bounded(with_page(listing, pages[0]), pages.skip(1));
    }
}

proof fn lemma_no_quote_inside(folder: Seq<char>, i: int)
    requires
        valid_folder(folder),
        0 <= i < folder.len(),
    ensures
        folder[i] != '\'',
{
    assert(id_char(folder[i]));
}

/// A query names one folder and nothing else: the identifier in it cannot end the quotation.
pub proof fn law_query_stays_quoted(folder: Seq<char>)
    requires
        valid_folder(folder),
    ensures
        folder_query(folder).len() == folder.len() + folder_query(Seq::empty()).len(),
        folder_query(folder).subrange(1, 1 + folder.len() as int) == folder,
        forall|i: int| 1 <= i < 1 + folder.len() ==> #[trigger] folder_query(folder)[i] != '\'',
{
    reveal_strlit("'");
    let q = folder_query(folder);
    assert(q.subrange(1, 1 + folder.len() as int) =~= folder);
    assert forall|i: int| 1 <= i < 1 + folder.len() implies #[trigger] q[i] != '\'' by {
        assert(q[i] == folder[i - 1]);
        lemma_no_quote_inside(folder, i - 1);
    }
}

/// A page adds its files behind those there are, as far as there is room for five thousand: the
/// file at each place has the identifier, name, type, size, time and parents of the file at that
/// place of the page.
pub proof fn law_page_adds_its_files(listing: Listing, page: Page, files: Seq<ChangeFile>)
    requires
        listing.all.len() <= 5000,
        page.files == Some(files),
    ensures
        ({
            let n = listing.all.len();
            let all = with_page(listing, page).all;
            &&& n + files.len() <= 5000 ==> all.len() == n + files.len()
            &&& n + files.len() > 5000 ==> all.len() == 5000
            &&& forall|i: int| 0 <= i < n ==> #[trigger] all[i] == listing.all[i]
            &&& forall|i: int|
                n <= i < all.len() ==> {
                    let e = #[trigger] all[i];
                    let f = files[i - n].entry;
                    &&& e.id == f.id
                    &&& e.name == f.name
                    &&& e.mime_type == f.mime_type
                    &&& e.size == f.size
                    &&& e.modified_time == f.modified_time
                    &&& e.parents == f.parents
                }
        }),
        with_page(listing, page).query == listing.query,
{
    let sum = listing.all + page_entries(page);
    let all = with_page(listing, page).all;
    assert forall|i: int| 0 <= i < all.len() implies #[trigger] all[i] == sum[i] by {}
    assert(page_entries(page).len() == files.len());
}

/// A page without files adds none.
pub proof fn law_empty_page_adds_nothing(listing: Listing, page: Page)
    requires
        listing.all.len() <= 5000,
        page.files is None,
    ensures
        with_page(listing, page).all == listing.all,
{
    assert(listing.all + page_entries(page) =~= listing.all);
}

/// Another page is asked for exactly if there is room left and the page announces one that has a
/// name; it is asked for under that name, and otherwise nothing changes but the files.
pub proof fn law_next_page_is_the_announced_one(listing: Listing, page: Page)
    ensures
        follows(listing, page) <==> {
            let coming = match page.files {
                Some(files) => files.len(),
                None => 0,
            };
            &&& listing.all.len() + coming < 5000
            &&& page.next_page_token is Some
            &&& page.next_page_token->0.len() > 0
        },
        follows(listing, page) ==> with_page(listing, page).page_token == page.next_page_token,
        !follows(listing, page) ==> with_page(listing, page).page_token == listing.page_token,
{
}

/// A page is asked for with the query, the fields and the size of a page, and behind these with
/// the token of the page if there is one.
pub proof fn law_page_request(query: Seq<char>, all: Seq<DriveEntry>, token: Seq<char>)
    ensures
        ({
            let always = seq![
                ("q"@, query),
                ("fields"@, "nextPageToken,files(id,name,mimeType,size,modifiedTime,parents)"@),
                ("pageSize"@, "200"@),
            ];
            &&& page_request(Listing { query, page_token: None, all }) == always
            &&& page_request(Listing { query, page_token: Some(token), all }) == always + seq![
                ("pageToken"@, token),
            ]
        }),
        FILES_URL@ == "https://www.googleapis.com/drive/v3/files"@,
{
    let always = seq![
        ("q"@, query),
        ("fields"@, "nextPageToken,files(id,name,mimeType,size,modifiedTime,parents)"@),
        ("pageSize"@, "200"@),
    ];
    assert(page_request(Listing { query, page_token: Some(token), all }) =~= always + seq![
        ("pageToken"@, token),
    ]);
}

/// An identifier is valid exactly if it is made of letters, digits, underscores and hyphens; the
/// folder that is listed is the one that was asked for, or the top one.
pub proof fn law_folder_identifiers(folder: Seq<char>)
    ensures
        valid_folder(folder) <==> forall|i: int|
            0 <= i < folder.len() ==> {
                let c = #[trigger] folder[i];
                ||| c == '_'
                ||| c == '-'
                ||| 'a' <= c && c <= 'z'
                ||| 'A' <= c && c <= 'Z'
                ||| '0' <= c && c <= '9'
            },
        folder_or_root(Some(folder)) == folder,
        folder_or_root(None) == "root"@,
        folder_query(folder) == "'"@ + folder + "' in parents and trashed = false"@,
{
}

/// The views of files, pages and listings hold every field as it is.
pub proof fn law_views_of_listings(f: DriveChangeFile, p: DriveFileListResponse, l: FileListing)
    ensures
        f@.entry.id == f.id@,
        f@.entry.name == f.name@,
        f@.entry.mime_type == f.mime_type@,
        f.size matches Some(t) ==> f@.entry.size == Some(t@),
        f.size is None ==> f@.entry.size is None,
        f.modified_time matches Some(t) ==> f@.entry.modified_time == Some(t@),
        f.modified_time is None ==> f@.entry.modified_time is None,
        f.parents is None ==> f@.entry.parents is None,
        f.parents matches Some(ps) ==> f@.entry.parents == Some(
            Seq::new(ps@.len(), |i: int| ps@[i]@),
        ),
        f@.trashed == f.trashed,
        p.files is None ==> p@.files is None,
        p.files matches Some(fs) ==> p@.files == Some(Seq::new(fs@.len(), |i: int| fs@[i]@)),
        p.next_page_token matches Some(t) ==> p@.next_page_token == Some(t@),
        p.next_page_token is None ==> p@.next_page_token is None,
        l@.query == l.query@,
        l.page_token matches Some(t) ==> l@.page_token == Some(t@),
        l.page_token is None ==> l@.page_token is None,
        l@.all == Seq::new(l.all@.len(), |i: int| l.all@[i]@),
{
    if let Some(ps) = f.parents {
        assert(f@.entry.parents->0 =~= Seq::new(ps@.len(), |i: int| ps@[i]@));
    }
    if let Some(fs) = p.files {
        assert(p@.files->0 =~= Seq::new(fs@.len(), |i: int| fs@[i]@));
    }
}

} // verus!
