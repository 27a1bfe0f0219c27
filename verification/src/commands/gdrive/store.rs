//! What of the connection outlives the program.
use vstd::prelude::*;

use crate::commands::gdrive::state;
use crate::commands::gdrive::state::{Drive, GDriveState};
use crate::models::SyncStatusKind;
use crate::text;

verus! {

/// The file of the store.
pub const STORE_FILE: &'static str = "config.json";

pub const KEY_ACCESS: &'static str = "gdrive_access_token";

pub const KEY_REFRESH: &'static str = "gdrive_refresh_token";

pub const KEY_EXPIRY: &'static str = "gdrive_token_expiry";

pub const KEY_CHANGES: &'static str = "gdrive_changes_token";

pub const KEY_CLIENT_ID: &'static str = "gdrive_client_id";

pub const KEY_CLIENT_SECRET: &'static str = "gdrive_client_secret";

/// A value in the store.
#[derive(Debug, PartialEq)]
pub enum StoreValue {
    Text(String),
    Number(u64),
    Other,
}

/// What a `StoreValue` says.
pub enum Datum {
    Text(Seq<char>),
    Number(u64),
    Other,
}

impl View for StoreValue {
    type V = Datum;

    open spec fn view(&self) -> Datum {
        match self {
            StoreValue::Text(t) => Datum::Text(t@),
            StoreValue::Number(n) => Datum::Number(*n),
            StoreValue::Other => Datum::Other,
        }
    }
}

impl DeepView for StoreValue {
    type V = Datum;

    open spec fn deep_view(&self) -> Datum {
        self@
    }
}

/// A store after values were put in, one after the other.
pub open spec fn written(store: Map<Seq<char>, Datum>, entries: Seq<(Seq<char>, Datum)>) -> Map<
    Seq<char>,
    Datum,
>
    decreases entries.len(),
{
    if entries.len() == 0 {
        store
    } else {
        written(store, entries.drop_last()).insert(entries.last().0, entries.last().1)
    }
}

/// The store that holds just these values.
pub open spec fn store_of(entries: Seq<(Seq<char>, Datum)>) -> Map<Seq<char>, Datum> {
    written(Map::empty(), entries)
}

/// The entry for a text that may be missing.
pub open spec fn text_entry(key: Seq<char>, value: Option<Seq<char>>) -> Seq<(Seq<char>, Datum)> {
    match value {
        Some(t) => seq![(key, Datum::Text(t))],
        None => Seq::empty(),
    }
}

/// What is written of a connection: the tokens and credentials that it has, and the expiry.
pub open spec fn saved_entries(d: Drive) -> Seq<(Seq<char>, Datum)> {
    text_entry(KEY_ACCESS@, d.access_token) + text_entry(KEY_REFRESH@, d.refresh_token) + seq![
        (KEY_EXPIRY@, Datum::Number(d.token_expiry)),
    ] + text_entry(KEY_CHANGES@, d.changes_token) + text_entry(KEY_CLIENT_ID@, d.client_id)
        + text_entry(KEY_CLIENT_SECRET@, d.client_secret)
}

/// The keys of the tokens.
pub open spec fn token_keys() -> Seq<Seq<char>> {
    seq![KEY_ACCESS@, KEY_REFRESH@, KEY_EXPIRY@, KEY_CHANGES@]
}

/// A store without the tokens. The credentials stay.
pub open spec fn erased(store: Map<Seq<char>, Datum>) -> Map<Seq<char>, Datum> {
    store.remove_keys(token_keys().to_set())
}

/// The text that the store has under a key.
pub open spec fn text_at(store: Map<Seq<char>, Datum>, key: Seq<char>) -> Option<Seq<char>> {
    if store.dom().contains(key) {
        match store[key] {
            Datum::Text(t) => Some(t),
            _ => None,
        }
    } else {
        None
    }
}

/// The number that the store has under a key, or zero.
pub open spec fn number_at(store: Map<Seq<char>, Datum>, key: Seq<char>) -> u64 {
    if store.dom().contains(key) {
        match store[key] {
            Datum::Number(n) => n,
            _ => 0,
        }
    } else {
        0
    }
}

/// `a`, or `b` where there is none.
pub open spec fn either(a: Option<Seq<char>>, b: Option<Seq<char>>) -> Option<Seq<char>> {
    if a is Some {
        a
    } else {
        b
    }
}

/// The connection with what the store has of it. Credentials that the store does not have
/// stay as they are.
pub open spec fn restored(d: Drive, store: Map<Seq<char>, Datum>) -> Drive {
    let read = Drive {
        access_token: text_at(store, KEY_ACCESS@),
        refresh_token: text_at(store, KEY_REFRESH@),
        token_expiry: number_at(store, KEY_EXPIRY@),
        changes_token: text_at(store, KEY_CHANGES@),
        client_id: either(text_at(store, KEY_CLIENT_ID@), d.client_id),
        client_secret: either(text_at(store, KEY_CLIENT_SECRET@), d.client_secret),
        ..d
    };
    if read.refresh_token is Some {
        state::with_status(read, SyncStatusKind::Connected, "Restored from saved session"@)
    } else {
        read
    }
}

fn add_entry(entries: &mut Vec<(String, StoreValue)>, key: &str, value: StoreValue)
    ensures
        final(entries).deep_view() == old(entries).deep_view().push((key@, value@)),
{
    entries.push((key.to_owned(), value));
    assert(entries@.drop_last() =~= old(entries)@);
    assert(entries@.last().deep_view() == (key@, value@));
    assert(entries.deep_view() =~= old(entries).deep_view().push((key@, value@)));
}

fn add_text(entries: &mut Vec<(String, StoreValue)>, key: &str, value: &Option<String>)
    ensures
        final(entries).deep_view() == old(entries).deep_view() + text_entry(
            key@,
            value.deep_view(),
        ),
{
    if let Some(t) = value {
        add_entry(entries, key, StoreValue::Text(t.clone()));
        assert(entries.deep_view() =~= old(entries).deep_view() + text_entry(
            key@,
            value.deep_view(),
        ));
    } else {
        assert(entries.deep_view() =~= old(entries).deep_view() + text_entry(
            key@,
            value.deep_view(),
        ));
    }
}

fn find_entry(entries: &Vec<(String, StoreValue)>, key: &str) -> (res: Option<usize>)
    ensures
        match res {
            Some(i) => i < entries@.len() && store_of(entries.deep_view()).dom().contains(key@)
                && store_of(entries.deep_view())[key@] == entries@[i as int].1@,
            None => !store_of(entries.deep_view()).dom().contains(key@),
        },
{
    let ghost all = entries.deep_view();
    let mut n: usize = entries.len();
    assert(all.take(n as int) =~= all);
    while n > 0
        invariant
            n <= entries@.len(),
            all == entries.deep_view(),
            store_of(all).dom().contains(key@) == store_of(all.take(n as int)).dom().contains(
                key@,
            ),
            store_of(all).dom().contains(key@) ==> store_of(all)[key@] == store_of(
                all.take(n as int),
            )[key@],
        decreases n,
    {
        assert(all.take(n as int).drop_last() =~= all.take(n - 1));
        assert(all.take(n as int).last() == entries@[n - 1].deep_view());
        if text::same_text(entries[n - 1].0.as_str(), key) {
            return Some(n - 1);
        }
        n -= 1;
    }
    None
}

fn find_text(entries: &Vec<(String, StoreValue)>, key: &str) -> (res: Option<String>)
    ensures
        res.deep_view() == text_at(store_of(entries.deep_view()), key@),
{
    match find_entry(entries, key) {
        Some(i) => match &entries[i].1 {
            StoreValue::Text(t) => Some(t.clone()),
            _ => None,
        },
        None => None,
    }
}

fn find_number(entries: &Vec<(String, StoreValue)>, key: &str) -> (res: u64)
    ensures
        res == number_at(store_of(entries.deep_view()), key@),
{
    match find_entry(entries, key) {
        Some(i) => match &entries[i].1 {
            StoreValue::Number(n) => *n,
            _ => 0,
        },
        None => 0,
    }
}

/// The keys to take out of the store when the connection is given up.
pub fn delete_tokens() -> (res: Vec<&'static str>)
    ensures
        res.deep_view() == token_keys(),
{
    let res: Vec<&'static str> = vec![KEY_ACCESS, KEY_REFRESH, KEY_EXPIRY, KEY_CHANGES];
    assert(res.deep_view() =~= token_keys());
    res
}

impl GDriveState {
    /// What to write to the store.
    pub fn save_tokens(&self) -> (res: Vec<(String, StoreValue)>)
        ensures
            res.deep_view() == saved_entries(self@),
    {
        let mut entries: Vec<(String, StoreValue)> = Vec::new();
        add_text(&mut entries, KEY_ACCESS, &self.access_token);
        add_text(&mut entries, KEY_REFRESH, &self.refresh_token);
        let ghost before = entries.deep_view();
        add_entry(&mut entries, KEY_EXPIRY, StoreValue::Number(self.token_expiry));
        assert(entries.deep_view() =~= before + seq![
            (KEY_EXPIRY@, Datum::Number(self.token_expiry)),
        ]);
        add_text(&mut entries, KEY_CHANGES, &self.changes_token);
        add_text(&mut entries, KEY_CLIENT_ID, &self.client_id);
        add_text(&mut entries, KEY_CLIENT_SECRET, &self.client_secret);
        assert(entries.deep_view() =~= saved_entries(self@));
        entries
    }
}

/// Takes up the connection from the entries of the store. The answer is whether there is one
/// to go on with.
pub fn cmd_gdrive_restore_tokens(
    drive: &mut GDriveState,
    entries: &Vec<(String, StoreValue)>,
) -> (res: Result<bool, String>)
    ensures
        final(drive)@ == restored(old(drive)@, store_of(entries.deep_view())),
        res == Ok::<bool, String>(final(drive)@.refresh_token is Some),
{
    drive.access_token = find_text(entries, KEY_ACCESS);
    drive.refresh_token = find_text(entries, KEY_REFRESH);
    drive.token_expiry = find_number(entries, KEY_EXPIRY);
    drive.changes_token = find_text(entries, KEY_CHANGES);
    let client_id = find_text(entries, KEY_CLIENT_ID);
    if client_id.is_some() {
        drive.client_id = client_id;
    }
    let client_secret = find_text(entries, KEY_CLIENT_SECRET);
    if client_secret.is_some() {
        drive.client_secret = client_secret;
    }
    if drive.refresh_token.is_some() {
        drive.set_status(SyncStatusKind::Connected, "Restored from saved session".to_owned());
        Ok(true)
    } else {
        Ok(false)
    }
}

proof fn lemma_keys_differ()
    ensures
        KEY_ACCESS@ != KEY_REFRESH@,
        KEY_ACCESS@ != KEY_EXPIRY@,
        KEY_ACCESS@ != KEY_CHANGES@,
        KEY_ACCESS@ != KEY_CLIENT_ID@,
        KEY_ACCESS@ != KEY_CLIENT_SECRET@,
        KEY_REFRESH@ != KEY_EXPIRY@,
        KEY_REFRESH@ != KEY_CHANGES@,
        KEY_REFRESH@ != KEY_CLIENT_ID@,
        KEY_REFRESH@ != KEY_CLIENT_SECRET@,
        KEY_EXPIRY@ != KEY_CHANGES@,
        KEY_EXPIRY@ != KEY_CLIENT_ID@,
        KEY_EXPIRY@ != KEY_CLIENT_SECRET@,
        KEY_CHANGES@ != KEY_CLIENT_ID@,
        KEY_CHANGES@ != KEY_CLIENT_SECRET@,
        KEY_CLIENT_ID@ != KEY_CLIENT_SECRET@,
{
    reveal_strlit("gdrive_access_token");
    reveal_strlit("gdrive_refresh_token");
    reveal_strlit("gdrive_token_expiry");
    reveal_strlit("gdrive_changes_token");
    reveal_strlit("gdrive_client_id");
    reveal_strlit("gdrive_client_secret");
    assert(KEY_ACCESS@[7] == 'a');
    assert(KEY_REFRESH@[7] == 'r');
    assert(KEY_EXPIRY@[7] == 't');
    assert(KEY_CHANGES@[7] == 'c' && KEY_CHANGES@[8] == 'h');
    assert(KEY_CLIENT_ID@[7] == 'c' && KEY_CLIENT_ID@[8] == 'l');
    assert(KEY_CLIENT_SECRET@[7] == 'c' && KEY_CLIENT_SECRET@[8] == 'l');
    assert(KEY_CLIENT_ID@.len() != KEY_CLIENT_SECRET@.len());
}

proof fn lemma_written_in_two_goes(
    store: Map<Seq<char>, Datum>,
    a: Seq<(Seq<char>, Datum)>,
    b: Seq<(Seq<char>, Datum)>,
)
    ensures
        written(store, a + b) == written(written(store, a), b),
    decreases b.len(),
{
    if b.len() == 0 {
        assert(a + b =~= a);
    } else {
        assert((a + b).drop_last() =~= a + b.drop_last());
        lemma_written_in_two_goes(store, a, b.drop_last());
    }
}

proof fn lemma_text_written(store: Map<Seq<char>, Datum>, key: Seq<char>, value: Option<Seq<char>>)
    ensures
        written(store, text_entry(key, value)) == match value {
            Some(t) => store.insert(key, Datum::Text(t)),
            None => store,
        },
{
    reveal_with_fuel(written, 2);
    let e = text_entry(key, value);
    if value is Some {
        assert(e.drop_last() =~= Seq::empty());
    }
}

/// What is saved is restored: tokens, expiry, page token and credentials come back, if the
/// store had nothing under the keys of those that the connection lacks.
pub proof fn law_saved_connection_is_restored(
    store: Map<Seq<char>, Datum>,
    saved: Drive,
    fresh: Drive,
)
    requires
        saved.access_token is None ==> text_at(store, KEY_ACCESS@) is None,
        saved.refresh_token is None ==> text_at(store, KEY_REFRESH@) is None,
        saved.changes_token is None ==> text_at(store, KEY_CHANGES@) is None,
        saved.client_id is None ==> text_at(store, KEY_CLIENT_ID@) is None,
        saved.client_secret is None ==> text_at(store, KEY_CLIENT_SECRET@) is None,
    ensures
        ({
            let d = restored(fresh, written(store, saved_entries(saved)));
            &&& d.access_token == saved.access_token
            &&& d.refresh_token == saved.refresh_token
            &&& d.token_expiry == saved.token_expiry
            &&& d.changes_token == saved.changes_token
            &&& d.client_id == either(saved.client_id, fresh.client_id)
            &&& d.client_secret == either(saved.client_secret, fresh.client_secret)
            &&& d.refresh_token is Some ==> d.status.state == SyncStatusKind::Connected
        }),
{
    lemma_keys_differ();
    lemma_saved_store(store, saved);
}

/// What the store has of a text that may be missing.
pub open spec fn put_text(
    store: Map<Seq<char>, Datum>,
    key: Seq<char>,
    value: Option<Seq<char>>,
) -> Map<Seq<char>, Datum> {
    match value {
        Some(t) => store.insert(key, Datum::Text(t)),
        None => store,
    }
}

proof fn lemma_saved_store(store: Map<Seq<char>, Datum>, saved: Drive)
    ensures
        ({
            let s1 = put_text(store, KEY_ACCESS@, saved.access_token);
            let s2 = put_text(s1, KEY_REFRESH@, saved.refresh_token);
            let s3 = s2.insert(KEY_EXPIRY@, Datum::Number(saved.token_expiry));
            let s4 = put_text(s3, KEY_CHANGES@, saved.changes_token);
            let s5 = put_text(s4, KEY_CLIENT_ID@, saved.client_id);
            written(store, saved_entries(saved)) == put_text(
                s5,
                KEY_CLIENT_SECRET@,
                saved.client_secret,
            )
        }),
{
    let e1 = text_entry(KEY_ACCESS@, saved.access_token);
    let e2 = text_entry(KEY_REFRESH@, saved.refresh_token);
    let e3 = seq![(KEY_EXPIRY@, Datum::Number(saved.token_expiry))];
    let e4 = text_entry(KEY_CHANGES@, saved.changes_token);
    let e5 = text_entry(KEY_CLIENT_ID@, saved.client_id);
    let e6 = text_entry(KEY_CLIENT_SECRET@, saved.client_secret);
    lemma_written_in_two_goes(store, e1 + e2 + e3 + e4 + e5, e6);
    lemma_written_in_two_goes(store, e1 + e2 + e3 + e4, e5);
    lemma_written_in_two_goes(store, e1 + e2 + e3, e4);
    lemma_written_in_two_goes(store, e1 + e2, e3);
    lemma_written_in_two_goes(store, e1, e2);
    let s1 = written(store, e1);
    let s2 = written(s1, e2);
    let s3 = written(s2, e3);
    let s4 = written(s3, e4);
    let s5 = written(s4, e5);
    lemma_text_written(store, KEY_ACCESS@, saved.access_token);
    lemma_text_written(s1, KEY_REFRESH@, saved.refresh_token);
    assert(s3 == s2.insert(KEY_EXPIRY@, Datum::Number(saved.token_expiry))) by {
        reveal_with_fuel(written, 2);
        assert(e3.drop_last() =~= Seq::empty());
    }
    lemma_text_written(s3, KEY_CHANGES@, saved.changes_token);
    lemma_text_written(s4, KEY_CLIENT_ID@, saved.client_id);
    lemma_text_written(s5, KEY_CLIENT_SECRET@, saved.client_secret);
}

/// Once the connection was given up, nothing of it is restored but the credentials.
pub proof fn law_erased_connection_stays_away(store: Map<Seq<char>, Datum>, fresh: Drive)
    ensures
        ({
            let d = restored(fresh, erased(store));
            &&& d.access_token is None
            &&& d.refresh_token is None
            &&& d.token_expiry == 0
            &&& d.changes_token is None
            &&& d.client_id == either(text_at(store, KEY_CLIENT_ID@), fresh.client_id)
            &&& d.client_secret == either(text_at(store, KEY_CLIENT_SECRET@), fresh.client_secret)
            &&& d.status == fresh.status
        }),
{
    lemma_keys_differ();
    let keys = token_keys();
    assert(keys.contains(keys[0]) && keys.contains(keys[1]) && keys.contains(keys[2])
        && keys.contains(keys[3]));
    assert(!keys.contains(KEY_CLIENT_ID@));
    assert(!keys.contains(KEY_CLIENT_SECRET@));
}

/// A store has under a key what was put in under it last, and otherwise what it had.
pub proof fn law_last_value_counts(
    store: Map<Seq<char>, Datum>,
    entries: Seq<(Seq<char>, Datum)>,
    k: int,
    key: Seq<char>,
)
    requires
        -1 <= k < entries.len(),
        k >= 0 ==> entries[k].0 == key,
        forall|i: int| k < i < entries.len() ==> (#[trigger] entries[i]).0 != key,
    ensures
        k >= 0 ==> written(store, entries).dom().contains(key) && written(store, entries)[key]
            == entries[k].1,
        k == -1 ==> (written(store, entries).dom().contains(key) <==> store.dom().contains(key)),
        k == -1 && store.dom().contains(key) ==> written(store, entries)[key] == store[key],
    decreases entries.len(),
{
    if entries.len() > 0 && k < entries.len() - 1 {
        let before = entries.drop_last();
        assert(entries[entries.len() - 1].0 != key);
        assert forall|i: int| k < i < before.len() implies (#[trigger] before[i]).0 != key by {
            assert(before[i] == entries[i]);
        }
        law_last_value_counts(store, before, k, key);
    }
}

/// Erasing takes the four tokens out of the store, and leaves everything else in it as it is.
pub proof fn law_erasing_takes_the_tokens_only(store: Map<Seq<char>, Datum>, key: Seq<char>)
    ensures
        ({
            let token = key == "gdrive_access_token"@ || key == "gdrive_refresh_token"@ || key
                == "gdrive_token_expiry"@ || key == "gdrive_changes_token"@;
            &&& token ==> !erased(store).dom().contains(key)
            &&& !token ==> (erased(store).dom().contains(key) <==> store.dom().contains(key))
            &&& !token && store.dom().contains(key) ==> erased(store)[key] == store[key]
        }),
{
    let keys = token_keys();
    assert(keys.contains(keys[0]) && keys.contains(keys[1]) && keys.contains(keys[2])
        && keys.contains(keys[3]));
}

/// What is restored is what the store has, read by its kind: texts as texts, the expiry as a
/// number. The rest of the connection stays, and it shows as connected exactly if there is a
/// refresh token to go on with.
pub proof fn law_restoring_reads_the_store(d: Drive, store: Map<Seq<char>, Datum>)
    ensures
        ({
            let e = restored(d, store);
            &&& e.access_token == text_at(store, "gdrive_access_token"@)
            &&& e.refresh_token == text_at(store, "gdrive_refresh_token"@)
            &&& e.changes_token == text_at(store, "gdrive_changes_token"@)
            &&& e.token_expiry == number_at(store, "gdrive_token_expiry"@)
            &&& text_at(store, "gdrive_client_id"@) is Some ==> e.client_id == text_at(
                store,
                "gdrive_client_id"@,
            )
            &&& text_at(store, "gdrive_client_id"@) is None ==> e.client_id == d.client_id
            &&& text_at(store, "gdrive_client_secret"@) is Some ==> e.client_secret == text_at(
                store,
                "gdrive_client_secret"@,
            )
            &&& text_at(store, "gdrive_client_secret"@) is None ==> e.client_secret
                == d.client_secret
            &&& e.files_synced == d.files_synced
            &&& e.connecting == d.connecting
            &&& e.refresh_token is None ==> e.status == d.status
            &&& e.refresh_token is Some ==> {
                &&& e.status.state == SyncStatusKind::Connected
                &&& e.status.message == "Restored from saved session"@
                &&& e.status.last_synced == d.status.last_synced
                &&& e.status.files_synced == d.status.files_synced
            }
        }),
{
}

/// A text is read where the store has one, and a number where it has one; a missing value or one
/// of another kind is no text, and counts as zero.
pub proof fn law_values_are_read_by_their_kind(
    store: Map<Seq<char>, Datum>,
    key: Seq<char>,
    t: Seq<char>,
    n: u64,
)
    ensures
        text_at(store.insert(key, Datum::Text(t)), key) == Some(t),
        number_at(store.insert(key, Datum::Number(n)), key) == n,
        text_at(store.insert(key, Datum::Number(n)), key) is None,
        text_at(store.insert(key, Datum::Other), key) is None,
        number_at(store.insert(key, Datum::Text(t)), key) == 0,
        number_at(store.insert(key, Datum::Other), key) == 0,
        text_at(store.remove(key), key) is None,
        number_at(store.remove(key), key) == 0,
        store_of(Seq::empty()).dom() == Set::<Seq<char>>::empty(),
{
    let none = Seq::<(Seq<char>, Datum)>::empty();
    assert(store_of(none) == Map::<Seq<char>, Datum>::empty());
}

/// The view of a value is the value.
pub proof fn law_view_of_a_value(t: String, n: u64)
    ensures
        StoreValue::Text(t)@ == Datum::Text(t@),
        StoreValue::Number(n)@ == Datum::Number(n),
        StoreValue::Other@ == Datum::Other,
{
}

/// Saving writes, under each of the six keys, what the connection has: texts that are missing and
/// every other key are left as they were.
pub proof fn law_saving_writes_the_connection_only(
    store: Map<Seq<char>, Datum>,
    d: Drive,
    key: Seq<char>,
)
    ensures
        ({
            let after = written(store, saved_entries(d));
            let value = if key == "gdrive_access_token"@ {
                d.access_token
            } else if key == "gdrive_refresh_token"@ {
                d.refresh_token
            } else if key == "gdrive_changes_token"@ {
                d.changes_token
            } else if key == "gdrive_client_id"@ {
                d.client_id
            } else if key == "gdrive_client_secret"@ {
                d.client_secret
            } else {
                None
            };
            &&& after.dom().contains("gdrive_token_expiry"@)
            &&& after["gdrive_token_expiry"@] == Datum::Number(d.token_expiry)
            &&& value matches Some(t) ==> after.dom().contains(key) && after[key] == Datum::Text(t)
            &&& key != "gdrive_token_expiry"@ && value is None ==> (after.dom().contains(key)
                <==> store.dom().contains(key))
            &&& key != "gdrive_token_expiry"@ && value is None && store.dom().contains(key)
                ==> after[key] == store[key]
        }),
        STORE_FILE@ == "config.json"@,
{
    lemma_keys_differ();
    lemma_saved_store(store, d);
}

} // verus!
