//! Signing in at Google: the browser is sent there, and comes back with a code.
use vstd::prelude::*;

use crate::commands::gdrive::state;
use crate::commands::gdrive::state::{Drive, GDriveState};
use crate::models::SyncStatusKind;
use crate::number;
use crate::pairs;
use crate::random;
use crate::text;

verus! {

/// How many seconds a sign-in may take.
pub const SIGN_IN_SECONDS: u64 = 300;

/// What the browser is shown after a sign-in.
pub const GRANTED_PAGE: &'static str = "HTTP/1.1 200 OK\r\nContent-Type: text/html; charset=utf-8\r\n\r\n<html><body style='font-family:sans-serif;text-align:center;padding:60px'><h2>\u{2705} Connected to Google Drive</h2><p>You can close this tab and return to OmniSync.</p></body></html>";

/// What the browser is shown when the sign-in was cancelled.
pub const CANCELLED_PAGE: &'static str = "HTTP/1.1 400 Bad Request\r\nContent-Type: text/html; charset=utf-8\r\n\r\n<html><body style='font-family:sans-serif;text-align:center;padding:60px'><h2>\u{274C} Google sign-in cancelled</h2><p>You can close this tab and return to OmniSync.</p></body></html>";

/// What a stray request is answered.
pub const STRAY_REPLY: &'static str = "HTTP/1.1 404 Not Found\r\n\r\n";

/// The bytes that stand for themselves in an encoded part of an address.
pub open spec fn unreserved(b: u8) -> bool {
    ||| 0x30 <= b <= 0x39
    ||| 0x41 <= b <= 0x5a
    ||| 0x61 <= b <= 0x7a
    ||| b == 0x2d
    ||| b == 0x2e
    ||| b == 0x5f
    ||| b == 0x7e
}

/// The characters of an encoded part of an address.
pub open spec fn plain_in_address(c: char) -> bool {
    ||| '0' <= c <= '9'
    ||| 'A' <= c <= 'Z'
    ||| 'a' <= c <= 'z'
    ||| c == '-'
    ||| c == '.'
    ||| c == '_'
    ||| c == '~'
    ||| c == '%'
}

/// The upper-case hexadecimal digit for `d`, below sixteen.
pub open spec fn upper_hex_digit(d: nat) -> char {
    if d < 10 {
        (0x30 + d) as char
    } else {
        (0x37 + d) as char
    }
}

/// One byte of an encoded part of an address.
pub open spec fn encoded_byte(b: u8) -> Seq<char> {
    if unreserved(b) {
        seq![b as char]
    } else {
        seq!['%', upper_hex_digit(b as nat / 16), upper_hex_digit(b as nat % 16)]
    }
}

/// Bytes as an encoded part of an address.
pub open spec fn percent_encoded(bytes: Seq<u8>) -> Seq<char>
    decreases bytes.len(),
{
    if bytes.len() == 0 {
        Seq::empty()
    } else {
        percent_encoded(bytes.drop_last()) + encoded_byte(bytes.last())
    }
}

/// A text as an encoded part of an address.
pub open spec fn url_encoded(s: Seq<char>) -> Seq<char> {
    percent_encoded(vstd::utf8::encode_utf8(s))
}

/// `urlencoding::encode`: every byte of the UTF-8 text becomes a percent sign and two
/// upper-case hexadecimal digits, except letters, digits and `-`, `.`, `_`, `~`.
#[verifier::external_body]
pub(crate) fn url_encode(s: &str) -> (res: String)
    ensures
        res@ == url_encoded(s@),
{
    urlencoding::encode(s).into_owned()
}

/// The names and values in the query of an address, or `None` for what is no address, as the
/// crate `url` reads them.
pub uninterp spec fn url_query(address: Seq<char>) -> Option<Seq<(Seq<char>, Seq<char>)>>;

/// `url::Url::parse`, and `url::Url::query_pairs` on its result.
///
/// What comes back depends on the text alone; it is the query of the address, decoded, as
/// `url_query` names it.
#[verifier::external_body]
fn query_pairs(address: &str) -> (res: Option<Vec<(String, String)>>)
    ensures
        res.deep_view() == url_query(address@),
{
    url::Url::parse(address).ok().map(|u| u.query_pairs().into_owned().collect())
}

/// The address that the browser comes back to.
pub open spec fn redirect_address(port: u16) -> Seq<char> {
    "http://127.0.0.1:"@ + number::decimal(port as nat) + "/gdrive/callback"@
}

/// The address that the browser is sent to.
pub open spec fn sign_in_address(
    client_id: Seq<char>,
    redirect_uri: Seq<char>,
    nonce: Seq<char>,
) -> Seq<char> {
    "https://accounts.google.com/o/oauth2/v2/auth?client_id="@ + url_encoded(client_id)
        + "&redirect_uri="@ + url_encoded(redirect_uri)
        + "&response_type=code&scope=https%3A%2F%2Fwww.googleapis.com%2Fauth%2Fdrive.readonly&access_type=offline&prompt=consent&state="@
        + url_encoded(nonce)
}

/// The credentials of an OAuth client.
#[derive(Debug, PartialEq)]
pub struct Credentials {
    pub client_id: String,
    pub client_secret: String,
}

/// The connection while a sign-in may run: not two at a time, and none without credentials.
pub open spec fn sign_in_begun(d: Drive) -> Drive {
    Drive {
        connecting: d.connecting || (d.client_id is Some && d.client_secret is Some),
        ..d
    }
}

/// Begins a sign-in, unless one is under way or the credentials are missing. One that was
/// begun is ended with `end_sign_in`.
pub fn cmd_gdrive_connect(drive: &mut GDriveState) -> (res: Result<Credentials, String>)
    ensures
        final(drive)@ == sign_in_begun(old(drive)@),
        match res {
            Ok(c) => !old(drive)@.connecting && old(drive)@.client_id == Some(c.client_id@) && old(
                drive,
            )@.client_secret == Some(c.client_secret@),
            Err(e) => if old(drive)@.connecting {
                e@ == "Connection already in progress"@
            } else {
                (old(drive)@.client_id is None || old(drive)@.client_secret is None) && e@
                    == "Set OAuth credentials first via cmd_gdrive_set_credentials"@
            },
        },
{
    if drive.connecting {
        return Err("Connection already in progress".to_owned());
    }
    match (&drive.client_id, &drive.client_secret) {
        (Some(id), Some(secret)) => {
            let credentials = Credentials {
                client_id: id.clone(),
                client_secret: secret.clone(),
            };
            drive.connecting = true;
            Ok(credentials)
        },
        _ => Err("Set OAuth credentials first via cmd_gdrive_set_credentials".to_owned()),
    }
}

impl GDriveState {
    /// Ends a sign-in, however it went.
    pub fn end_sign_in(&mut self)
        ensures
            final(self)@ == (Drive { connecting: false, ..old(self)@ }),
    {
        self.connecting = false;
    }

    /// The browser has been sent off.
    pub fn on_browser_opened(&mut self)
        ensures
            final(self)@ == state::with_status(
                old(self)@,
                SyncStatusKind::Connecting,
                "Waiting for Google sign-in\u{2026}"@,
            ),
    {
        self.set_status(
            SyncStatusKind::Connecting,
            "Waiting for Google sign-in\u{2026}".to_owned(),
        );
    }

    /// The sign-in is complete: the changes are read on from `start_token`.
    pub fn on_start_token(&mut self, start_token: Option<String>)
        ensures
            final(self)@ == (Drive {
                changes_token: start_token.deep_view(),
                ..state::with_status(
                    old(self)@,
                    SyncStatusKind::Connected,
                    "Google Drive connected"@,
                )
            }),
    {
        self.changes_token = start_token;
        self.set_status(SyncStatusKind::Connected, "Google Drive connected".to_owned());
    }
}

/// A sign-in under way.
#[derive(Debug, PartialEq)]
pub struct SignIn {
    pub credentials: Credentials,
    pub redirect_uri: String,
    /// What has to come back unchanged.
    pub nonce: String,
}

/// What the browser came back with.
#[derive(Debug, PartialEq)]
pub enum Callback {
    /// Nothing to answer.
    Unreadable,
    /// Some other request.
    Stray,
    /// The sign-in was cancelled.
    Cancelled { error: String },
    /// The sign-in went through.
    Granted { code: String, state: String },
}

/// What a `Callback` says.
pub enum Return {
    Unreadable,
    Stray,
    Cancelled { error: Seq<char> },
    Granted { code: Seq<char>, state: Seq<char> },
}

impl View for Callback {
    type V = Return;

    open spec fn view(&self) -> Return {
        match self {
            Callback::Unreadable => Return::Unreadable,
            Callback::Stray => Return::Stray,
            Callback::Cancelled { error } => Return::Cancelled { error: error@ },
            Callback::Granted { code, state } => Return::Granted { code: code@, state: state@ },
        }
    }
}

/// The last value under a name.
pub open spec fn last_value(pairs: Seq<(Seq<char>, Seq<char>)>, name: Seq<char>) -> Option<
    Seq<char>,
>
    decreases pairs.len(),
{
    if pairs.len() == 0 {
        None
    } else if pairs.last().0 == name {
        Some(pairs.last().1)
    } else {
        last_value(pairs.drop_last(), name)
    }
}

/// What the query of a request says. An error counts before a code.
pub open spec fn return_of(query: Option<Seq<(Seq<char>, Seq<char>)>>) -> Return {
    match query {
        None => Return::Unreadable,
        Some(pairs) => match (last_value(pairs, "error"@), last_value(pairs, "code"@)) {
            (Some(error), _) => Return::Cancelled { error },
            (None, Some(code)) => Return::Granted {
                code,
                state: match last_value(pairs, "state"@) {
                    Some(s) => s,
                    None => Seq::empty(),
                },
            },
            (None, None) => Return::Stray,
        },
    }
}

/// The query that a request line asks with.
pub open spec fn requested_query(line: Seq<char>) -> Option<Seq<(Seq<char>, Seq<char>)>> {
    match text::second_word(line) {
        Some(path) => url_query("http://localhost"@ + path),
        None => None,
    }
}

fn find_value(pairs: &Vec<(String, String)>, name: &str) -> (res: Option<String>)
    ensures
        res.deep_view() == last_value(pairs.deep_view(), name@),
{
    let ghost all = pairs.deep_view();
    let mut n: usize = pairs.len();
    assert(all.take(n as int) =~= all);
    while n > 0
        invariant
            n <= pairs@.len(),
            all == pairs.deep_view(),
            last_value(all, name@) == last_value(all.take(n as int), name@),
        decreases n,
    {
        assert(all.take(n as int).drop_last() =~= all.take(n - 1));
        assert(all.take(n as int).last() == pairs@[n - 1].deep_view());
        if text::same_text(pairs[n - 1].0.as_str(), name) {
            return Some(pairs[n - 1].1.clone());
        }
        n -= 1;
    }
    None
}

/// Reads what the query of a request says.
pub fn read_query(query: Option<Vec<(String, String)>>) -> (res: Callback)
    ensures
        res@ == return_of(query.deep_view()),
{
    let pairs = match query {
        Some(pairs) => pairs,
        None => {
            return Callback::Unreadable;
        },
    };
    if let Some(error) = find_value(&pairs, "error") {
        return Callback::Cancelled { error };
    }
    match find_value(&pairs, "code") {
        Some(code) => {
            let state = match find_value(&pairs, "state") {
                Some(s) => s,
                None => String::new(),
            };
            Callback::Granted { code, state }
        },
        None => Callback::Stray,
    }
}

/// Reads what a request to the callback says, from its first line.
pub fn read_request(line: &str) -> (res: Callback)
    ensures
        res@ == return_of(requested_query(line@)),
{
    match text::word_two(line) {
        Some(path) => {
            let mut address = "http://localhost".to_owned();
            address.append(path.as_str());
            read_query(query_pairs(address.as_str()))
        },
        None => Callback::Unreadable,
    }
}

impl Callback {
    /// What to answer the browser.
    pub fn reply(&self) -> (res: Option<&'static str>)
        ensures
            match *self {
                Callback::Unreadable => res is None,
                Callback::Stray => res matches Some(r) && r@ == STRAY_REPLY@,
                Callback::Cancelled { .. } => res matches Some(r) && r@ == CANCELLED_PAGE@,
                Callback::Granted { .. } => res matches Some(r) && r@ == GRANTED_PAGE@,
            },
    {
        match self {
            Callback::Unreadable => None,
            Callback::Stray => Some(STRAY_REPLY),
            Callback::Cancelled { .. } => Some(CANCELLED_PAGE),
            Callback::Granted { .. } => Some(GRANTED_PAGE),
        }
    }
}

/// What may go wrong in a sign-in.
#[derive(Debug, PartialEq)]
pub enum SignInFailure {
    Bind(String),
    Accept(String),
    TimedOut,
    Exchange(String),
    Parse(String),
}

/// What a failed sign-in is reported with.
pub open spec fn failure_message(failure: SignInFailure) -> Seq<char> {
    match failure {
        SignInFailure::Bind(e) => "Cannot bind OAuth listener: "@ + e@,
        SignInFailure::Accept(e) => "OAuth listener accept failed: "@ + e@,
        SignInFailure::TimedOut => "OAuth timed out after 5 minutes"@,
        SignInFailure::Exchange(e) => "Token exchange failed: "@ + e@,
        SignInFailure::Parse(e) => "Token parse failed: "@ + e@,
    }
}

impl SignInFailure {
    /// What the failure is reported with.
    pub fn message(&self) -> (res: String)
        ensures
            res@ == failure_message(*self),
    {
        match self {
            SignInFailure::Bind(e) => "Cannot bind OAuth listener: ".to_owned().concat(e.as_str()),
            SignInFailure::Accept(e) => "OAuth listener accept failed: ".to_owned().concat(
                e.as_str(),
            ),
            SignInFailure::TimedOut => "OAuth timed out after 5 minutes".to_owned(),
            SignInFailure::Exchange(e) => "Token exchange failed: ".to_owned().concat(e.as_str()),
            SignInFailure::Parse(e) => "Token parse failed: ".to_owned().concat(e.as_str()),
        }
    }
}

/// What a callback means for a sign-in that waits for `nonce`: `None` to go on waiting, the
/// code of a sign-in that is this one, or the error that ends it.
pub open spec fn sign_in_result(r: Return, nonce: Seq<char>) -> Option<
    Result<Seq<char>, Seq<char>>,
> {
    match r {
        Return::Unreadable | Return::Stray => None,
        Return::Cancelled { error } => Some(Err("Google OAuth error: "@ + error)),
        Return::Granted { code, state } => if state == nonce {
            Some(Ok(code))
        } else {
            Some(Err("OAuth state mismatch \u{2014} possible CSRF"@))
        },
    }
}

impl SignIn {
    /// A sign-in with a given nonce, which is to come back to a port of this machine.
    pub fn with_nonce(credentials: Credentials, port: u16, nonce: String) -> (res: Self)
        ensures
            res.credentials == credentials,
            res.redirect_uri@ == redirect_address(port),
            res.nonce == nonce,
    {
        let mut redirect_uri = "http://127.0.0.1:".to_owned();
        let port = number::write_decimal(port as u128);
        redirect_uri.append(port.as_str());
        redirect_uri.append("/gdrive/callback");
        SignIn { credentials, redirect_uri, nonce }
    }

    /// A sign-in with a nonce of thirty-two random bytes.
    pub fn new(credentials: Credentials, port: u16) -> (res: Self)
        ensures
            res.credentials == credentials,
            res.redirect_uri@ == redirect_address(port),
            random::is_hex_of(res.nonce@, 32),
    {
        SignIn::with_nonce(credentials, port, random::random_hex(32))
    }

    /// The address that the browser is sent to.
    pub fn auth_url(&self) -> (res: String)
        ensures
            res@ == sign_in_address(
                self.credentials.client_id@,
                self.redirect_uri@,
                self.nonce@,
            ),
    {
        let client_id = url_encode(self.credentials.client_id.as_str());
        let redirect_uri = url_encode(self.redirect_uri.as_str());
        let nonce = url_encode(self.nonce.as_str());
        let mut url = "https://accounts.google.com/o/oauth2/v2/auth?client_id=".to_owned();
        url.append(client_id.as_str());
        url.append("&redirect_uri=");
        url.append(redirect_uri.as_str());
        url.append(
            "&response_type=code&scope=https%3A%2F%2Fwww.googleapis.com%2Fauth%2Fdrive.readonly&access_type=offline&prompt=consent&state=",
        );
        url.append(nonce.as_str());
        url
    }

    /// What a callback means: go on waiting, take the code, or fail.
    pub fn on_callback(&self, callback: Callback) -> (res: Option<Result<String, String>>)
        ensures
            match sign_in_result(callback@, self.nonce@) {
                None => res is None,
                Some(Ok(code)) => res matches Some(Ok(c)) && c@ == code,
                Some(Err(error)) => res matches Some(Err(e)) && e@ == error,
            },
    {
        match callback {
            Callback::Unreadable => None,
            Callback::Stray => None,
            Callback::Cancelled { error } => Some(
                Err("Google OAuth error: ".to_owned().concat(error.as_str())),
            ),
            Callback::Granted { code, state } => if text::same_text(
                state.as_str(),
                self.nonce.as_str(),
            ) {
                Some(Ok(code))
            } else {
                Some(Err("OAuth state mismatch \u{2014} possible CSRF".to_owned()))
            },
        }
    }

    /// The form that trades the code for tokens.
    pub fn exchange_params(&self, code: &str) -> (res: Vec<(String, String)>)
        ensures
            res.deep_view() == seq![
                ("code"@, code@),
                ("client_id"@, self.credentials.client_id@),
                ("client_secret"@, self.credentials.client_secret@),
                ("redirect_uri"@, self.redirect_uri@),
                ("grant_type"@, "authorization_code"@),
            ],
    {
        let mut form = pairs::no_pairs();
        pairs::add_pair(&mut form, "code", code.to_owned());
        pairs::add_pair(&mut form, "client_id", self.credentials.client_id.clone());
        pairs::add_pair(&mut form, "client_secret", self.credentials.client_secret.clone());
        pairs::add_pair(&mut form, "redirect_uri", self.redirect_uri.clone());
        pairs::add_pair(&mut form, "grant_type", "authorization_code".to_owned());
        assert(form.deep_view() =~= seq![
            ("code"@, code@),
            ("client_id"@, self.credentials.client_id@),
            ("client_secret"@, self.credentials.client_secret@),
            ("redirect_uri"@, self.redirect_uri@),
            ("grant_type"@, "authorization_code"@),
        ]);
        form
    }
}

/// An encoded text holds nothing that has a meaning of its own in an address: letters, digits,
/// `-`, `.`, `_`, `~` and percent signs only.
pub proof fn law_encoded_text_is_one_value(s: Seq<char>)
    ensures
        forall|i: int|
            0 <= i < url_encoded(s).len() ==> plain_in_address(#[trigger] url_encoded(s)[i]),
{
    lemma_encoded_bytes_are_plain(vstd::utf8::encode_utf8(s));
}

proof fn lemma_encoded_bytes_are_plain(bytes: Seq<u8>)
    ensures
        forall|i: int|
            0 <= i < percent_encoded(bytes).len() ==> plain_in_address(
                #[trigger] percent_encoded(bytes)[i],
            ),
    decreases bytes.len(),
{
    if bytes.len() > 0 {
        let front = percent_encoded(bytes.drop_last());
        let whole = percent_encoded(bytes);
        lemma_encoded_bytes_are_plain(bytes.drop_last());
        let b = bytes.last();
        assert(plain_in_address(upper_hex_digit(b as nat / 16)));
        assert(plain_in_address(upper_hex_digit(b as nat % 16)));
        assert forall|i: int| 0 <= i < whole.len() implies plain_in_address(
            #[trigger] whole[i],
        ) by {
            if i < front.len() {
                assert(whole[i] == front[i]);
            } else {
                assert(whole[i] == encoded_byte(b)[i - front.len()]);
            }
        }
    }
}

/// A nonce stands in the address as it is: encoding leaves hexadecimal digits alone.
pub proof fn law_nonce_is_safe_in_an_address(nonce: Seq<char>, n: nat)
    requires
        random::is_hex_of(nonce, n),
    ensures
        url_encoded(nonce) == nonce,
{
    let bytes = choose|bytes: Seq<u8>| bytes.len() == n && nonce == #[trigger] number::hex(bytes);
    assert forall|i: int| 0 <= i < nonce.len() implies '0' <= #[trigger] nonce[i] <= '9' || 'a'
        <= nonce[i] <= 'f' by {
        let b = bytes[i / 2];
        assert(nonce[i] == number::hex_digit(
            if i % 2 == 0 {
                b as nat / 16
            } else {
                b as nat % 16
            },
        ));
    }
    assert(vstd::utf8::is_ascii_chars(nonce));
    vstd::utf8::is_ascii_chars_encode_utf8(nonce);
    let coded = vstd::utf8::encode_utf8(nonce);
    assert forall|i: int| 0 <= i < coded.len() implies unreserved(#[trigger] coded[i]) by {
        assert(coded[i] == nonce[i] as u8);
    }
    lemma_unreserved_bytes_stay(coded);
    assert(percent_encoded(coded) =~= nonce);
}

proof fn lemma_unreserved_bytes_stay(bytes: Seq<u8>)
    requires
        forall|i: int| 0 <= i < bytes.len() ==> unreserved(#[trigger] bytes[i]),
    ensures
        percent_encoded(bytes) == bytes.map_values(|b: u8| b as char),
    decreases bytes.len(),
{
    let chars = bytes.map_values(|b: u8| b as char);
    if bytes.len() > 0 {
        let front = bytes.drop_last();
        assert forall|i: int| 0 <= i < front.len() implies unreserved(#[trigger] front[i]) by {
            assert(front[i] == bytes[i]);
        }
        lemma_unreserved_bytes_stay(front);
        assert(unreserved(bytes[bytes.len() - 1]));
        assert(percent_encoded(bytes) =~= chars);
    } else {
        assert(percent_encoded(bytes) =~= chars);
    }
}

/// A code is taken only from a callback that brings the nonce back.
pub proof fn law_code_needs_the_nonce(r: Return, nonce: Seq<char>)
    ensures
        sign_in_result(r, nonce) matches Some(Ok(code)) ==> r == (Return::Granted {
            code,
            state: nonce,
        }),
{
}

/// While a sign-in is under way no other begins; it begins again once that one is over.
pub proof fn law_one_sign_in_at_a_time(d: Drive)
    ensures
        sign_in_begun(d).connecting ==> sign_in_begun(sign_in_begun(d)) == sign_in_begun(d),
        !d.connecting ==> (Drive { connecting: false, ..sign_in_begun(d) }) == d,
{
}

/// A sign-in begins exactly if none is under way and both credentials are there; only the mark
/// that it is under way changes.
pub proof fn law_sign_in_begins_with_credentials(d: Drive)
    ensures
        !d.connecting ==> (sign_in_begun(d).connecting <==> d.client_id is Some
            && d.client_secret is Some),
        d.connecting ==> sign_in_begun(d) == d,
        sign_in_begun(d) == (Drive { connecting: sign_in_begun(d).connecting, ..d }),
{
}

/// The browser is sent to Google with the client, the address to come back to, the scope and the
/// nonce, each of them encoded; it comes back to this machine.
pub proof fn law_sign_in_address_carries_the_request(
    client_id: Seq<char>,
    redirect_uri: Seq<char>,
    nonce: Seq<char>,
    port: u16,
)
    ensures
        sign_in_address(client_id, redirect_uri, nonce)
            == "https://accounts.google.com/o/oauth2/v2/auth?client_id="@ + url_encoded(client_id)
            + "&redirect_uri="@ + url_encoded(redirect_uri)
            + "&response_type=code&scope=https%3A%2F%2Fwww.googleapis.com%2Fauth%2Fdrive.readonly&access_type=offline&prompt=consent&state="@
            + url_encoded(nonce),
        redirect_address(port) == "http://127.0.0.1:"@ + number::decimal(port as nat)
            + "/gdrive/callback"@,
{
}

/// The value under a name is that of the last pair with the name; without one there is none.
pub proof fn law_last_value_under_a_name(
    pairs: Seq<(Seq<char>, Seq<char>)>,
    name: Seq<char>,
    k: int,
)
    requires
        -1 <= k < pairs.len(),
        k >= 0 ==> pairs[k].0 == name,
        forall|i: int| k < i < pairs.len() ==> (#[trigger] pairs[i]).0 != name,
    ensures
        k >= 0 ==> last_value(pairs, name) == Some(pairs[k].1),
        k == -1 ==> last_value(pairs, name) is None,
    decreases pairs.len(),
{
    if pairs.len() > 0 && k < pairs.len() - 1 {
        let before = pairs.drop_last();
        assert(pairs[pairs.len() - 1].0 != name);
        assert forall|i: int| k < i < before.len() implies (#[trigger] before[i]).0 != name by {
            assert(before[i] == pairs[i]);
        }
        law_last_value_under_a_name(before, name, k);
    }
}

/// An error cancels the sign-in whatever else came back; a code without an error grants it, with
/// the state that came back or an empty one; without both the request is a stray one.
pub proof fn law_returns_are_read(pairs: Seq<(Seq<char>, Seq<char>)>)
    ensures
        ({
            let error = last_value(pairs, "error"@);
            let code = last_value(pairs, "code"@);
            let state = last_value(pairs, "state"@);
            &&& error matches Some(e) ==> return_of(Some(pairs)) == (Return::Cancelled { error: e })
            &&& error is None && code is None ==> return_of(Some(pairs)) == Return::Stray
            &&& error is None && code is Some ==> {
                &&& return_of(Some(pairs)) matches Return::Granted { code: c, state: s }
                &&& c == code->0
                &&& state is Some ==> s == state->0
                &&& state is None ==> s.len() == 0
            }
        }),
        return_of(None) == Return::Unreadable,
{
}

/// A request line asks with the query of its second word, read as an address on this machine.
pub proof fn law_request_line_is_read(method: Seq<char>, path: Seq<char>, version: Seq<char>)
    requires
        method.len() > 0,
        path.len() > 0,
        forall|i: int| 0 <= i < method.len() ==> !text::is_space(#[trigger] method[i]),
        forall|i: int| 0 <= i < path.len() ==> !text::is_space(#[trigger] path[i]),
    ensures
        requested_query(method + seq![' '] + path + (seq![' '] + version)) == url_query(
            "http://localhost"@ + path,
        ),
        requested_query(method) is None,
{
    let none = Seq::<char>::empty();
    text::law_second_word_is_behind_the_first(
        none,
        method,
        seq![' '],
        path,
        seq![' '] + version,
    );
    assert(none + method =~= method);
}

/// A code is taken from a callback that brings the nonce back, and one with another state is
/// refused; a cancelled sign-in ends with its error, and any other request is waited out.
pub proof fn law_callbacks_are_judged(code: Seq<char>, state: Seq<char>, nonce: Seq<char>)
    ensures
        sign_in_result(Return::Granted { code, state: nonce }, nonce) == Some(
            Ok::<Seq<char>, Seq<char>>(code),
        ),
        state != nonce ==> sign_in_result(Return::Granted { code, state }, nonce) == Some(
            Err::<Seq<char>, Seq<char>>("OAuth state mismatch \u{2014} possible CSRF"@),
        ),
        sign_in_result(Return::Cancelled { error: code }, nonce) == Some(
            Err::<Seq<char>, Seq<char>>("Google OAuth error: "@ + code),
        ),
        sign_in_result(Return::Stray, nonce) is None,
        sign_in_result(Return::Unreadable, nonce) is None,
{
}

/// A failed sign-in is reported with what failed, and with the error as it came; the time that
/// it is given is the one that is named.
pub proof fn law_failures_of_a_sign_in_are_named(e: String)
    ensures
        failure_message(SignInFailure::Bind(e)) == "Cannot bind OAuth listener: "@ + e@,
        failure_message(SignInFailure::Accept(e)) == "OAuth listener accept failed: "@ + e@,
        failure_message(SignInFailure::TimedOut) == "OAuth timed out after 5 minutes"@,
        SIGN_IN_SECONDS == 5 * 60,
        failure_message(SignInFailure::Exchange(e)) == "Token exchange failed: "@ + e@,
        failure_message(SignInFailure::Parse(e)) == "Token parse failed: "@ + e@,
{
}

/// Encoding goes byte by byte: a letter, a digit or one of `-`, `.`, `_`, `~` stands for itself,
/// and any other byte becomes a percent sign and its two hexadecimal digits.
pub proof fn law_encoding_goes_byte_by_byte(a: Seq<u8>, b: Seq<u8>, byte: u8)
    ensures
        percent_encoded(a + b) == percent_encoded(a) + percent_encoded(b),
        unreserved(byte) <==> {
            let c = byte as char;
            ||| 'a' <= c <= 'z'
            ||| 'A' <= c <= 'Z'
            ||| '0' <= c <= '9'
            ||| c == '-'
            ||| c == '.'
            ||| c == '_'
            ||| c == '~'
        },
        unreserved(byte) ==> percent_encoded(seq![byte]) == seq![byte as char],
        !unreserved(byte) ==> percent_encoded(seq![byte]) == seq![
            '%',
            "0123456789ABCDEF"@[byte as int / 16],
            "0123456789ABCDEF"@[byte as int % 16],
        ],
        percent_encoded(Seq::empty()).len() == 0,
    decreases b.len(),
{
    reveal_with_fuel(percent_encoded, 2);
    reveal_strlit("0123456789ABCDEF");
    assert(seq![byte].drop_last() =~= Seq::<u8>::empty());
    assert(percent_encoded(seq![byte]) =~= encoded_byte(byte));
    if b.len() == 0 {
        assert(a + b =~= a);
        assert(percent_encoded(a) + percent_encoded(b) =~= percent_encoded(a));
    } else {
        assert((a + b).drop_last() =~= a + b.drop_last());
        law_encoding_goes_byte_by_byte(a, b.drop_last(), byte);
        assert(percent_encoded(a + b) =~= percent_encoded(a) + percent_encoded(b));
    }
}

/// The view of what came back holds it as it is.
pub proof fn law_view_of_a_callback(c: Callback)
    ensures
        match c {
            Callback::Granted { code, state } => c@ == (Return::Granted {
                code: code@,
                state: state@,
            }),
            Callback::Cancelled { error } => c@ == (Return::Cancelled { error: error@ }),
            Callback::Stray => c@ == Return::Stray,
            Callback::Unreadable => c@ == Return::Unreadable,
        },
{
}

} // verus!
