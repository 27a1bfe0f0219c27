//! Folders: making, deleting and finding the channels that serve as folders.
use vstd::prelude::*;

use std::collections::HashMap;

use crate::clock;
use crate::models::{Folder, FolderMetadata};
use crate::text;

verus! {

/// What marks the description of a channel that is a folder.
pub const FOLDER_MARKER: &'static str = "[antigravity-drive-folder]";

/// The description of a new folder's channel.
pub const FOLDER_ABOUT: &'static str = "OmniSync Storage Folder\n[antigravity-drive-folder]";

/// The identifier of a folder that exists only locally: the second it was made in, sixteen bits
/// up, and a running number, together as a signed 64-bit number.
pub open spec fn mock_id(secs: u64, seq: u64) -> int {
    let bits = (secs * 0x1_0000 + seq) % 0x1_0000_0000_0000_0000;
    if bits < 0x8000_0000_0000_0000 {
        bits
    } else {
        bits - 0x1_0000_0000_0000_0000
    }
}

/// Hands out running numbers for local folders.
#[derive(Debug, PartialEq)]
pub struct FolderCounter {
    pub next: u64,
}

impl FolderCounter {
    /// Starts at zero.
    pub fn new() -> (res: Self)
        ensures
            res.next == 0,
    {
        FolderCounter { next: 0 }
    }

    /// The identifier of the next local folder, made in the second `secs`.
    pub fn issue(&mut self, secs: u64) -> (res: i64)
        ensures
            res == mock_id(secs, old(self).next),
            final(self).next == (old(self).next + 1) % 0x1_0000_0000_0000_0000,
    {
        let seq: u64 = self.next;
        self.next = seq.wrapping_add(1);
        let bits: u128 = (secs as u128 * 0x1_0000 + seq as u128) % 0x1_0000_0000_0000_0000;
        if bits < 0x8000_0000_0000_0000 {
            bits as i64
        } else {
            (bits as i128 - 0x1_0000_0000_0000_0000) as i64
        }
    }
}

/// The channel to make for a folder.
#[derive(Debug, PartialEq)]
pub struct ChannelRequest {
    pub broadcast: bool,
    pub megagroup: bool,
    pub title: String,
    pub about: String,
    pub for_import: bool,
    pub forum: bool,
    pub ttl_period: Option<i32>,
}

/// The title of a folder's channel.
pub open spec fn channel_title(name: Seq<char>) -> Seq<char> {
    name + " [AD]"@
}

/// `r` asks for the channel of a folder called `name`.
pub open spec fn asks_for_folder(r: ChannelRequest, name: Seq<char>) -> bool {
    &&& r.broadcast
    &&& !r.megagroup
    &&& r.title@ == channel_title(name)
    &&& r.about@ == FOLDER_ABOUT@
    &&& !r.for_import
    &&& !r.forum
    &&& r.ttl_period is None
}

/// A folder at the top level.
pub open spec fn top_folder(id: int, name: Seq<char>) -> Folder {
    Folder { id: id as i64, name, parent_id: None }
}

/// What to do to make a folder.
#[derive(Debug, PartialEq)]
pub enum CreateStep {
    /// Nothing: there is no client, and the folder is a local one.
    Done(FolderMetadata),
    /// Ask for a channel.
    Invoke(ChannelRequest),
}

/// A local folder, made in the second `secs`.
pub fn mock_folder(name: String, counter: &mut FolderCounter, secs: u64) -> (res: FolderMetadata)
    ensures
        res@ == top_folder(mock_id(secs, old(counter).next), name@),
        final(counter).next == (old(counter).next + 1) % 0x1_0000_0000_0000_0000,
{
    FolderMetadata { id: counter.issue(secs), name, parent_id: None }
}

/// Begins to make a folder: a local one where there is no client, else a channel.
pub fn cmd_create_folder(name: String, connected: bool, counter: &mut FolderCounter) -> (res:
    CreateStep)
    ensures
        connected ==> *final(counter) == *old(counter),
        connected ==> (res matches CreateStep::Invoke(r) && asks_for_folder(r, name@)),
        !connected ==> final(counter).next == (old(counter).next + 1) % 0x1_0000_0000_0000_0000,
        !connected ==> exists|secs: u64|
            res matches CreateStep::Done(folder) && folder@ == top_folder(
                #[trigger] mock_id(secs, old(counter).next),
                name@,
            ),
{
    if !connected {
        return CreateStep::Done(mock_folder(name, counter, clock::unix_now()));
    }
    let mut title = name;
    title.append(" [AD]");
    CreateStep::Invoke(
        ChannelRequest {
            broadcast: true,
            megagroup: false,
            title,
            about: FOLDER_ABOUT.to_owned(),
            for_import: false,
            forum: false,
            ttl_period: None,
        },
    )
}

/// One of the chats in an answer.
#[derive(Debug, PartialEq)]
pub enum ChatInfo {
    Channel { id: i64, access_hash: Option<i64> },
    Other,
}

/// The answer to the request for a channel.
#[derive(Debug, PartialEq)]
pub enum ChannelReply {
    Updates(Vec<ChatInfo>),
    Other,
}

/// The number of a missing access hash.
pub open spec fn hash_or_zero(access_hash: Option<i64>) -> i64 {
    match access_hash {
        Some(h) => h,
        None => 0,
    }
}

/// The first channel among some chats.
pub open spec fn first_channel(chats: Seq<ChatInfo>) -> Option<(i64, i64)>
    decreases chats.len(),
{
    if chats.len() == 0 {
        None
    } else {
        match chats[0] {
            ChatInfo::Channel { id, access_hash } => Some((id, hash_or_zero(access_hash))),
            ChatInfo::Other => first_channel(chats.skip(1)),
        }
    }
}

/// A folder whose channel exists, and what is asked of it next: to keep its history for good.
#[derive(Debug, PartialEq)]
pub struct CreatedFolder {
    pub folder: FolderMetadata,
    pub access_hash: i64,
    pub history_ttl: i32,
}

/// Takes the folder out of the answer to the request for its channel.
pub fn on_channel_created(name: String, answer: ChannelReply) -> (res: Result<
    CreatedFolder,
    String,
>)
    ensures
        match answer {
            ChannelReply::Updates(chats) => match first_channel(chats@) {
                Some((id, access_hash)) => res matches Ok(made) && made.folder@ == top_folder(
                    id as int,
                    name@,
                ) && made.access_hash == access_hash && made.history_ttl == 0,
                None => res matches Err(e) && e@ == "No channel in updates"@,
            },
            ChannelReply::Other => res matches Err(e) && e@
                == "Unexpected response (not Updates::Updates)"@,
        },
{
    let chats = match answer {
        ChannelReply::Updates(chats) => chats,
        ChannelReply::Other => {
            return Err("Unexpected response (not Updates::Updates)".to_owned());
        },
    };
    let mut i: usize = 0;
    assert(chats@.skip(0) =~= chats@);
    while i < chats.len()
        invariant
            i <= chats@.len(),
            answer == ChannelReply::Updates(chats),
            first_channel(chats@) == first_channel(chats@.skip(i as int)),
        decreases chats@.len() - i,
    {
        if let ChatInfo::Channel { id, access_hash } = &chats[i] {
            let hash: i64 = match access_hash {
                Some(h) => *h,
                None => 0,
            };
            return Ok(
                CreatedFolder {
                    folder: FolderMetadata { id: *id, name, parent_id: None },
                    access_hash: hash,
                    history_ttl: 0,
                },
            );
        }
        assert(chats@.skip(i as int).skip(1) =~= chats@.skip(i + 1));
        i += 1;
    }
    Err("No channel in updates".to_owned())
}

/// Somebody to exchange messages with.
#[derive(Debug, PartialEq)]
pub enum PeerInfo {
    Channel { id: i64, access_hash: Option<i64> },
    User { id: i64 },
    Other,
}

/// What to do to delete something.
#[derive(Debug, Clone, Copy, PartialEq, Eq, Structural)]
pub enum DeleteStep {
    /// Nothing: there is no client.
    Done,
    /// Find the peer, and delete there.
    ResolvePeer,
}

/// Begins to delete a folder.
pub fn cmd_delete_folder(connected: bool) -> (res: DeleteStep)
    ensures
        res == if connected {
            DeleteStep::ResolvePeer
        } else {
            DeleteStep::Done
        },
{
    if connected {
        DeleteStep::ResolvePeer
    } else {
        DeleteStep::Done
    }
}

/// The channel, with its access hash, that is deleted with a folder.
pub fn channel_to_delete(peer: &PeerInfo) -> (res: Result<(i64, i64), String>)
    ensures
        match *peer {
            PeerInfo::Channel { id, access_hash: Some(h) } => res == Ok::<(i64, i64), String>(
                (id, h),
            ),
            PeerInfo::Channel { access_hash: None, .. } => res matches Err(e) && e@
                == "No access hash for channel"@,
            _ => res matches Err(e) && e@ == "Only channels (folders) can be deleted."@,
        },
{
    match peer {
        PeerInfo::Channel { id, access_hash } => match access_hash {
            Some(h) => Ok((*id, *h)),
            None => Err("No access hash for channel".to_owned()),
        },
        _ => Err("Only channels (folders) can be deleted.".to_owned()),
    }
}

/// What comes of deleting a folder's channel.
pub fn on_channel_deleted(outcome: Result<(), String>) -> (res: Result<bool, String>)
    ensures
        match outcome {
            Ok(_) => res == Ok::<bool, String>(true),
            Err(e) => res matches Err(m) && m@ == "Failed to delete channel: "@ + e@,
        },
{
    match outcome {
        Ok(_) => Ok(true),
        Err(e) => {
            let mut message = "Failed to delete channel: ".to_owned();
            message.append(e.as_str());
            Err(message)
        },
    }
}

/// The name that a channel's title shows as a folder.
pub open spec fn display_name(title: Seq<char>) -> Seq<char> {
    text::trimmed(
        text::remove_all(
            text::remove_all(
                text::remove_all(text::remove_all(title, " [AD]"@), " [ad]"@),
                "[AD]"@,
            ),
            "[ad]"@,
        ),
    )
}

/// The name that a channel's title shows as a folder.
pub fn folder_name(title: &str) -> (res: String)
    ensures
        res@ == display_name(title@),
{
    let a = text::remove(title, " [AD]");
    let b = text::remove(a.as_str(), " [ad]");
    let c = text::remove(b.as_str(), "[AD]");
    let d = text::remove(c.as_str(), "[ad]");
    text::trim(d.as_str())
}

/// A search through the dialogs for folders; `P` is what a peer is remembered by.
#[derive(Debug)]
pub struct FolderScan<P> {
    pub folders: Vec<FolderMetadata>,
    pub harvested: Vec<(i64, P)>,
}

/// The folders after one more channel was looked at.
pub open spec fn folders_with(
    folders: Seq<Folder>,
    id: i64,
    title: Seq<char>,
    about: Option<Seq<char>>,
) -> Seq<Folder> {
    if about is Some && text::holds(about->0, FOLDER_MARKER@) {
        folders.push(top_folder(id as int, display_name(title)))
    } else {
        folders
    }
}

/// A cache after peers were put in; one that is there already stays.
pub open spec fn kept_first<P>(cache: Map<i64, P>, harvested: Seq<(i64, P)>) -> Map<i64, P>
    decreases harvested.len(),
{
    if harvested.len() == 0 {
        cache
    } else {
        let before = kept_first(cache, harvested.drop_last());
        if before.dom().contains(harvested.last().0) {
            before
        } else {
            before.insert(harvested.last().0, harvested.last().1)
        }
    }
}

/// Begins to look for folders, or `None` where there is no client and none are found.
pub fn cmd_scan_folders<P>(connected: bool) -> (res: Option<FolderScan<P>>)
    ensures
        res is Some <==> connected,
        res matches Some(scan) ==> scan.folders.deep_view() == Seq::<Folder>::empty()
            && scan.harvested@ == Seq::<(i64, P)>::empty(),
{
    if connected {
        Some(FolderScan::new())
    } else {
        None
    }
}

impl<P> FolderScan<P> {
    /// A search that has seen nothing yet.
    pub fn new() -> (res: Self)
        ensures
            res.folders.deep_view() == Seq::<Folder>::empty(),
            res.harvested@ == Seq::<(i64, P)>::empty(),
    {
        let res = FolderScan { folders: Vec::new(), harvested: Vec::new() };
        assert(res.folders.deep_view() =~= Seq::<Folder>::empty());
        res
    }

    /// Remembers the peer of a dialog. For a channel, the answer is the identifier and the
    /// access hash with which to ask for its description.
    pub fn on_dialog(&mut self, info: &PeerInfo, peer: P) -> (res: Option<(i64, i64)>)
        ensures
            final(self).folders == old(self).folders,
            match *info {
                PeerInfo::Channel { id, access_hash } => final(self).harvested@ == old(
                    self,
                ).harvested@.push((id, peer)) && res == Some((id, hash_or_zero(access_hash))),
                PeerInfo::User { id } => final(self).harvested@ == old(self).harvested@.push(
                    (id, peer),
                ) && res is None,
                PeerInfo::Other => final(self).harvested@ == old(self).harvested@ && res is None,
            },
    {
        match info {
            PeerInfo::Channel { id, access_hash } => {
                self.harvested.push((*id, peer));
                let hash: i64 = match access_hash {
                    Some(h) => *h,
                    None => 0,
                };
                Some((*id, hash))
            },
            PeerInfo::User { id } => {
                self.harvested.push((*id, peer));
                None
            },
            PeerInfo::Other => None,
        }
    }

    /// Takes a channel in as a folder if its description is marked. `about` is `None` where
    /// the description could not be had.
    pub fn on_description(&mut self, id: i64, title: &str, about: Option<String>)
        ensures
            final(self).folders.deep_view() == folders_with(
                old(self).folders.deep_view(),
                id,
                title@,
                about.deep_view(),
            ),
            final(self).harvested == old(self).harvested,
    {
        let marked = match &about {
            Some(about) => text::contains(about.as_str(), FOLDER_MARKER),
            None => false,
        };
        if marked {
            let ghost before = self.folders.deep_view();
            let name = folder_name(title);
            self.folders.push(FolderMetadata { id, name, parent_id: None });
            assert(self.folders.deep_view() =~= before.push(
                top_folder(id as int, display_name(title@)),
            ));
        }
    }

    /// Ends the search: the remembered peers go into the cache.
    pub fn finish(self, cache: &mut HashMap<i64, P>) -> (res: Vec<FolderMetadata>)
        ensures
            res == self.folders,
            final(cache)@ == kept_first(old(cache)@, self.harvested@),
    {
        broadcast use vstd::std_specs::hash::group_hash_axioms;

        let ghost all = self.harvested@;
        let ghost start = cache@;
        for entry in it: self.harvested
            invariant
                it.seq() == all,
                cache@ == kept_first(start, all.take(it.index())),
        {
            let (id, peer): (i64, P) = entry;
            assert(all.take(it.index() + 1).drop_last() =~= all.take(it.index()));
            if !cache.contains_key(&id) {
                cache.insert(id, peer);
            }
        }
        assert(all.take(all.len() as int) =~= all);
        self.folders
    }
}

/// Local folders that are made in the same second never share an identifier, and identifiers
/// grow with the running number while the clock is not set back and they fit in 63 bits.
pub proof fn law_local_ids_differ(secs1: u64, seq1: u64, secs2: u64, seq2: u64)
    ensures
        secs1 == secs2 && seq1 != seq2 ==> mock_id(secs1, seq1) != mock_id(secs2, seq2),
        secs1 <= secs2 && seq1 < seq2 && secs2 * 0x1_0000 + seq2 < 0x8000_0000_0000_0000
            ==> mock_id(secs1, seq1) < mock_id(secs2, seq2),
        i64::MIN <= mock_id(secs1, seq1) <= i64::MAX,
{
}

/// Caching peers never changes one that is cached already, and caches every one offered.
pub proof fn law_cache_keeps_first<P>(cache: Map<i64, P>, harvested: Seq<(i64, P)>)
    ensures
        forall|id: i64| #[trigger]
            cache.dom().contains(id) ==> kept_first(cache, harvested).dom().contains(id)
                && kept_first(cache, harvested)[id] == cache[id],
        forall|i: int|
            0 <= i < harvested.len() ==> kept_first(cache, harvested).dom().contains(
                (#[trigger] harvested[i]).0,
            ),
    decreases harvested.len(),
{
    if harvested.len() > 0 {
        law_cache_keeps_first(cache, harvested.drop_last());
        let after = kept_first(cache, harvested);
        let before = kept_first(cache, harvested.drop_last());
        assert forall|i: int| 0 <= i < harvested.len() implies after.dom().contains(
            (#[trigger] harvested[i]).0,
        ) by {
            if i < harvested.len() - 1 {
                assert(before.dom().contains(harvested.drop_last()[i].0));
            }
        }
    }
}

proof fn lemma_nothing_to_remove(s: Seq<char>, p: Seq<char>)
    requires
        !text::holds(s, p),
    ensures
        text::remove_all(s, p) == s,
{
    text::law_nothing_else_is_removed(s, p);
}

proof fn lemma_ending_removed(s: Seq<char>, p: Seq<char>)
    requires
        p.len() > 0,
        forall|i: int| 0 <= i < s.len() ==> !text::occurs_at(s + p, i, p),
    ensures
        text::remove_all(s + p, p) == s,
    decreases s.len(),
{
    let whole = s + p;
    if s.len() == 0 {
        assert(whole.subrange(0, p.len() as int) =~= p);
        assert(whole.skip(p.len() as int) =~= s);
        assert(text::remove_all(s, p) == s);
    } else {
        assert(!text::occurs_at(whole, 0, p));
        let tail = s.skip(1);
        assert(whole.skip(1) =~= tail + p);
        assert forall|i: int| 0 <= i < tail.len() implies !text::occurs_at(tail + p, i, p) by {
            if text::occurs_at(tail + p, i, p) {
                assert((tail + p).subrange(i, i + p.len()) =~= whole.subrange(
                    i + 1,
                    i + 1 + p.len(),
                ));
                assert(text::occurs_at(whole, i + 1, p));
            }
        }
        lemma_ending_removed(tail, p);
        assert(seq![whole[0]] + tail =~= s);
    }
}

proof fn lemma_shorter_mark(s: Seq<char>, long: Seq<char>, short: Seq<char>)
    requires
        long == seq![' '] + short,
        !text::holds(s, short),
    ensures
        !text::holds(s, long),
{
    assert forall|i: int| !text::occurs_at(s, i, long) by {
        if text::occurs_at(s, i, long) {
            assert(s.subrange(i + 1, i + 1 + short.len()) =~= s.subrange(
                i,
                i + long.len(),
            ).subrange(1, long.len() as int));
            assert(long.subrange(1, long.len() as int) =~= short);
            assert(text::occurs_at(s, i + 1, short));
        }
    }
}

/// A folder that was made under a name is found again under the same name, if the name has no
/// white space at its ends and does not hold the mark of a folder's title itself.
pub proof fn law_created_folder_is_found(id: i64, name: Seq<char>, folders: Seq<Folder>)
    requires
        text::trimmed(name) == name,
        !text::holds(name, "[AD]"@),
        !text::holds(name, "[ad]"@),
    ensures
        folders_with(folders, id, channel_title(name), Some(FOLDER_ABOUT@)) == folders.push(
            top_folder(id as int, name),
        ),
{
    reveal_strlit(" [AD]");
    reveal_strlit(" [ad]");
    reveal_strlit("[AD]");
    reveal_strlit("[ad]");
    reveal_strlit("[antigravity-drive-folder]");
    reveal_strlit("OmniSync Storage Folder\n[antigravity-drive-folder]");
    let mark = " [AD]"@;
    let title = channel_title(name);
    assert(mark =~= seq![' '] + "[AD]"@);
    assert(" [ad]"@ =~= seq![' '] + "[ad]"@);
    lemma_shorter_mark(name, mark, "[AD]"@);
    lemma_shorter_mark(name, " [ad]"@, "[ad]"@);
    assert forall|i: int| 0 <= i < name.len() implies !text::occurs_at(name + mark, i, mark) by {
        if text::occurs_at(name + mark, i, mark) {
            let found = (name + mark).subrange(i, i + mark.len());
            if i + mark.len() <= name.len() {
                assert(found =~= name.subrange(i, i + mark.len()));
                assert(text::occurs_at(name, i, mark));
            } else {
                let k = name.len() - i;
                assert(found[k] == mark[0]);
                assert(mark[k] == mark[0]);
            }
        }
    }
    lemma_ending_removed(name, mark);
    lemma_nothing_to_remove(name, " [ad]"@);
    lemma_nothing_to_remove(name, "[AD]"@);
    lemma_nothing_to_remove(name, "[ad]"@);
    assert(display_name(title) == name);
    assert(FOLDER_ABOUT@.subrange(24, 24 + FOLDER_MARKER@.len() as int) =~= FOLDER_MARKER@);
    assert(text::occurs_at(FOLDER_ABOUT@, 24, FOLDER_MARKER@));
}

/// The identifier of a local folder is the second, shifted up by sixteen bits, plus the running
/// number, modulo 2^64.
pub proof fn law_local_id_is_time_and_number(secs: u64, seq: u64)
    ensures
        secs * 65_536 + seq <= i64::MAX ==> mock_id(secs, seq) == secs * 65_536 + seq,
        (secs * 65_536 + seq - mock_id(secs, seq)) % 0x1_0000_0000_0000_0000 == 0,
        i64::MIN <= mock_id(secs, seq) <= i64::MAX,
{
}

/// A folder is asked for as a broadcast channel with the marked title and description, whose
/// history does not expire.
pub proof fn law_folder_request(r: ChannelRequest, name: Seq<char>)
    requires
        asks_for_folder(r, name),
    ensures
        r.title@ == name + " [AD]"@,
        r.about@ == "OmniSync Storage Folder\n[antigravity-drive-folder]"@,
        r.broadcast && !r.megagroup && !r.for_import && !r.forum,
        r.ttl_period is None,
{
}

/// The folder is the first channel of the answer, with a missing access hash taken as zero.
pub proof fn law_first_channel_is_the_folder(chats: Seq<ChatInfo>, k: int)
    requires
        0 <= k <= chats.len(),
        forall|i: int| 0 <= i < k ==> #[trigger] chats[i] is Other,
        k < chats.len() ==> chats[k] is Channel,
    ensures
        k == chats.len() ==> first_channel(chats) is None,
        k < chats.len() ==> (chats[k] matches ChatInfo::Channel { id, access_hash } && {
            &&& access_hash matches Some(h) ==> first_channel(chats) == Some((id, h))
            &&& access_hash is None ==> first_channel(chats) == Some((id, 0i64))
        }),
    decreases k,
{
    if k > 0 {
        let rest = chats.skip(1);
        assert(chats[0] is Other);
        assert forall|i: int| 0 <= i < k - 1 implies #[trigger] rest[i] is Other by {
            assert(rest[i] == chats[i + 1]);
        }
        law_first_channel_is_the_folder(rest, k - 1);
    }
}

/// A channel is taken in as a folder at the top level, under its number and the name that its
/// title shows, exactly if its description holds the mark; the folders before it stay.
pub proof fn law_marked_channels_are_folders(
    folders: Seq<Folder>,
    id: i64,
    title: Seq<char>,
    front: Seq<char>,
    back: Seq<char>,
    about: Seq<char>,
)
    ensures
        folders_with(folders, id, title, Some(front + "[antigravity-drive-folder]"@ + back))
            == folders.push(Folder { id, name: display_name(title), parent_id: None }),
        (forall|a: Seq<char>, b: Seq<char>|
            about != #[trigger] (a + "[antigravity-drive-folder]"@ + b)) ==> folders_with(
            folders,
            id,
            title,
            Some(about),
        ) == folders,
        folders_with(folders, id, title, None) == folders,
{
    text::law_held_text_has_a_front_and_a_back(
        about,
        "[antigravity-drive-folder]"@,
        front,
        back,
    );
}

/// The cache has, besides what it had, one peer for each identifier that was offered: the first
/// of those offered under it. Nothing else is put in.
pub proof fn law_cache_takes_the_first_offered<P>(
    cache: Map<i64, P>,
    harvested: Seq<(i64, P)>,
    k: int,
    other: i64,
)
    requires
        0 <= k < harvested.len(),
        forall|i: int| 0 <= i < k ==> (#[trigger] harvested[i]).0 != harvested[k].0,
        !cache.dom().contains(harvested[k].0),
        forall|i: int| 0 <= i < harvested.len() ==> (#[trigger] harvested[i]).0 != other,
    ensures
        kept_first(cache, harvested)[harvested[k].0] == harvested[k].1,
        kept_first(cache, harvested).dom().contains(other) <==> cache.dom().contains(other),
{
    lemma_not_offered(cache, harvested, other);
    lemma_first_offered(cache, harvested, k);
}

proof fn lemma_not_offered<P>(cache: Map<i64, P>, harvested: Seq<(i64, P)>, id: i64)
    requires
        forall|i: int| 0 <= i < harvested.len() ==> (#[trigger] harvested[i]).0 != id,
    ensures
        kept_first(cache, harvested).dom().contains(id) <==> cache.dom().contains(id),
    decreases harvested.len(),
{
    if harvested.len() > 0 {
        let before = harvested.drop_last();
        assert forall|i: int| 0 <= i < before.len() implies (#[trigger] before[i]).0 != id by {
            assert(before[i] == harvested[i]);
        }
        assert(harvested[harvested.len() - 1].0 != id);
        lemma_not_offered(cache, before, id);
    }
}

proof fn lemma_first_offered<P>(cache: Map<i64, P>, harvested: Seq<(i64, P)>, k: int)
    requires
        0 <= k < harvested.len(),
        forall|i: int| 0 <= i < k ==> (#[trigger] harvested[i]).0 != harvested[k].0,
        !cache.dom().contains(harvested[k].0),
    ensures
        kept_first(cache, harvested).dom().contains(harvested[k].0),
        kept_first(cache, harvested)[harvested[k].0] == harvested[k].1,
    decreases harvested.len(),
{
    let before = harvested.drop_last();
    if k == harvested.len() - 1 {
        assert forall|i: int| 0 <= i < before.len() implies (#[trigger] before[i]).0
            != harvested[k].0 by {
            assert(before[i] == harvested[i]);
        }
        lemma_not_offered(cache, before, harvested[k].0);
    } else {
        assert(before[k] == harvested[k]);
        assert forall|i: int| 0 <= i < k implies (#[trigger] before[i]).0 != before[k].0 by {
            assert(before[i] == harvested[i]);
        }
        lemma_first_offered(cache, before, k);
    }
}

proof fn lemma_no_bracket(s: Seq<char>, p: Seq<char>)
    requires
        !s.contains('['),
        p.contains('['),
    ensures
        !text::holds(s, p),
{
    let b = choose|b: int| 0 <= b < p.len() && p[b] == '[';
    assert forall|i: int| !text::occurs_at(s, i, p) by {
        if text::occurs_at(s, i, p) {
            assert(s.subrange(i, i + p.len())[b] == s[i + b]);
            assert(s.contains('['));
        }
    }
}

proof fn lemma_mark_between(a: Seq<char>, b: Seq<char>, mark: Seq<char>, at: int)
    requires
        !a.contains('['),
        !b.contains('['),
        0 <= at < mark.len(),
        mark[at] == '[',
        forall|i: int| 0 <= i < mark.len() && i != at ==> #[trigger] mark[i] != '[',
    ensures
        text::remove_all(a + mark + b, mark) == a + b,
{
    let s = a + mark + b;
    let i = a.len() as int;
    assert(s.subrange(i, i + mark.len()) =~= mark);
    assert forall|j: int| 0 <= j < i implies !text::occurs_at(s, j, mark) by {
        if text::occurs_at(s, j, mark) {
            let found = s.subrange(j, j + mark.len());
            assert(found[at] == s[j + at]);
            if j + at < i {
                assert(a[j + at] == '[');
                assert(a.contains('['));
            } else {
                assert(s[j + at] == mark[j + at - i]);
            }
        }
    }
    text::law_first_occurrence_is_removed(s, mark, i);
    assert(s.take(i) =~= a);
    assert(s.skip(i + mark.len()) =~= b);
    assert(mark.contains('['));
    lemma_no_bracket(b, mark);
    lemma_nothing_to_remove(b, mark);
}

proof fn lemma_other_mark(s: Seq<char>, at: int, mark: Seq<char>, k: int)
    requires
        0 <= at < s.len(),
        forall|i: int| 0 <= i < s.len() && i != at ==> #[trigger] s[i] != '[',
        0 <= k < mark.len(),
        mark[k] == '[',
        at + 1 < s.len() ==> k + 1 < mark.len() && s[at + 1] != mark[k + 1],
    ensures
        k + 1 < mark.len() ==> !text::holds(s, mark),
{
    assert forall|i: int| k + 1 < mark.len() implies !text::occurs_at(s, i, mark) by {
        if k + 1 < mark.len() && text::occurs_at(s, i, mark) {
            let found = s.subrange(i, i + mark.len());
            assert(found[k] == s[i + k]);
            assert(found[k + 1] == s[i + k + 1]);
            assert(i + k == at);
        }
    }
}

proof fn lemma_mark_needs_its_space(s: Seq<char>, at: int, mark: Seq<char>)
    requires
        0 <= at < s.len(),
        forall|i: int| 0 <= i < s.len() && i != at ==> #[trigger] s[i] != '[',
        at > 0 ==> s[at - 1] != ' ',
        mark.len() >= 2,
        mark[0] == ' ',
        mark[1] == '[',
    ensures
        !text::holds(s, mark),
{
    assert forall|i: int| !text::occurs_at(s, i, mark) by {
        if text::occurs_at(s, i, mark) {
            let found = s.subrange(i, i + mark.len());
            assert(found[0] == s[i]);
            assert(found[1] == s[i + 1]);
            assert(i + 1 == at);
        }
    }
}

/// A title shows what is left of it without the mark, wherever the mark stands and however it is
/// written, and without the white space around that. A title without a bracket shows all of it.
pub proof fn law_title_shows_without_its_mark(front: Seq<char>, back: Seq<char>)
    requires
        !front.contains('['),
        !back.contains('['),
    ensures
        display_name(front) == text::trimmed(front),
        display_name(front + " [AD]"@ + back) == text::trimmed(front + back),
        display_name(front + " [ad]"@ + back) == text::trimmed(front + back),
        front.len() == 0 || front.last() != ' ' ==> display_name(front + "[AD]"@ + back)
            == text::trimmed(front + back),
        front.len() == 0 || front.last() != ' ' ==> display_name(front + "[ad]"@ + back)
            == text::trimmed(front + back),
{
    reveal_strlit(" [AD]");
    reveal_strlit(" [ad]");
    reveal_strlit("[AD]");
    reveal_strlit("[ad]");
    let m1 = " [AD]"@;
    let m2 = " [ad]"@;
    let m3 = "[AD]"@;
    let m4 = "[ad]"@;
    assert(m1[1] == '[' && m2[1] == '[' && m3[0] == '[' && m4[0] == '[');
    let both = front + back;
    assert(!both.contains('['));
    assert(m1.contains('[') && m2.contains('[') && m3.contains('[') && m4.contains('['));
    lemma_no_bracket(front, m1);
    lemma_no_bracket(front, m2);
    lemma_no_bracket(front, m3);
    lemma_no_bracket(front, m4);
    lemma_nothing_to_remove(front, m1);
    lemma_nothing_to_remove(front, m2);
    lemma_nothing_to_remove(front, m3);
    lemma_nothing_to_remove(front, m4);
    lemma_no_bracket(both, m1);
    lemma_no_bracket(both, m2);
    lemma_no_bracket(both, m3);
    lemma_no_bracket(both, m4);
    lemma_nothing_to_remove(both, m1);
    lemma_nothing_to_remove(both, m2);
    lemma_nothing_to_remove(both, m3);
    lemma_nothing_to_remove(both, m4);
    lemma_mark_between(front, back, m1, 1);
    lemma_mark_between(front, back, m2, 1);
    lemma_mark_between(front, back, m3, 0);
    lemma_mark_between(front, back, m4, 0);
    let n = front.len() as int;
    let t2 = front + m2 + back;
    lemma_single_bracket(front, m2, back, 1);
    assert(t2[n + 2] == 'a');
    lemma_other_mark(t2, n + 1, m1, 1);
    lemma_nothing_to_remove(t2, m1);
    if front.len() == 0 || front.last() != ' ' {
        let t3 = front + m3 + back;
        let t4 = front + m4 + back;
        lemma_single_bracket(front, m3, back, 0);
        lemma_single_bracket(front, m4, back, 0);
        if n > 0 {
            assert(t3[n - 1] == front.last());
            assert(t4[n - 1] == front.last());
        }
        lemma_mark_needs_its_space(t3, n, m1);
        lemma_mark_needs_its_space(t3, n, m2);
        lemma_nothing_to_remove(t3, m1);
        lemma_nothing_to_remove(t3, m2);
        lemma_mark_needs_its_space(t4, n, m1);
        lemma_mark_needs_its_space(t4, n, m2);
        lemma_nothing_to_remove(t4, m1);
        lemma_nothing_to_remove(t4, m2);
        assert(t4[n + 1] == 'a');
        lemma_other_mark(t4, n, m3, 0);
        lemma_nothing_to_remove(t4, m3);
    }
}

proof fn lemma_single_bracket(front: Seq<char>, mark: Seq<char>, back: Seq<char>, at: int)
    requires
        !front.contains('['),
        !back.contains('['),
        0 <= at < mark.len(),
        mark[at] == '[',
        forall|i: int| 0 <= i < mark.len() && i != at ==> #[trigger] mark[i] != '[',
    ensures
        forall|i: int|
            0 <= i < (front + mark + back).len() && i != front.len() + at ==> #[trigger] (front
                + mark + back)[i] != '[',
        (front + mark + back)[front.len() + at] == '[',
{
    let s = front + mark + back;
    assert forall|i: int| 0 <= i < s.len() && i != front.len() + at implies #[trigger] s[i]
        != '[' by {
        if i < front.len() {
            if s[i] == '[' {
                assert(front[i] == '[');
                assert(front.contains('['));
            }
        } else if i < front.len() + mark.len() {
            assert(s[i] == mark[i - front.len()]);
        } else {
            if s[i] == '[' {
                assert(back[i - front.len() - mark.len()] == '[');
                assert(back.contains('['));
            }
        }
    }
}

/// A folder at the top level has its number and name and no parent; a missing access hash is
/// taken as zero.
pub proof fn law_top_level_folders(id: i64, name: Seq<char>, hash: i64)
    ensures
        top_folder(id as int, name) == (Folder { id, name, parent_id: None }),
        hash_or_zero(Some(hash)) == hash,
        hash_or_zero(None) == 0,
{
}

} // verus!
