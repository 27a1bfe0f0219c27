//! Access tokens: using the one there is, or getting another.
use vstd::prelude::*;

use crate::bandwidth;
use crate::clock;
use crate::commands::gdrive::oauth;
use crate::commands::gdrive::state::{Drive, GDriveState};
use crate::pairs;

verus! {

/// Where tokens are given out.
pub const TOKEN_URL: &'static str = "https://oauth2.googleapis.com/token";

/// How many seconds before its end a token counts as expired.
pub const EXPIRY_MARGIN: u64 = 60;

/// A token that was given out.
#[derive(Debug, PartialEq)]
pub struct TokenResponse {
    pub access_token: String,
    pub expires_in: u64,
    pub refresh_token: Option<String>,
}

/// What is needed to ask for another access token.
#[derive(Debug, PartialEq)]
pub struct RefreshRequest {
    pub client_id: String,
    pub client_secret: String,
    pub refresh_token: String,
}

/// How to come by a valid access token.
#[derive(Debug, PartialEq)]
pub enum TokenStep {
    /// Use this one.
    Use(String),
    /// Ask for another one.
    Refresh(RefreshRequest),
    /// There is no way.
    Fail(String),
}

/// What a `TokenStep` says.
pub enum TokenWay {
    Use(Seq<char>),
    Refresh { client_id: Seq<char>, client_secret: Seq<char>, refresh_token: Seq<char> },
    Fail(Seq<char>),
}

impl View for TokenStep {
    type V = TokenWay;

    open spec fn view(&self) -> TokenWay {
        match self {
            TokenStep::Use(t) => TokenWay::Use(t@),
            TokenStep::Refresh(r) => TokenWay::Refresh {
                client_id: r.client_id@,
                client_secret: r.client_secret@,
                refresh_token: r.refresh_token@,
            },
            TokenStep::Fail(e) => TokenWay::Fail(e@),
        }
    }
}

/// How to come by a valid access token in the second `now`.
pub open spec fn token_way(d: Drive, now: u64) -> TokenWay {
    if now < d.token_expiry && d.access_token is Some {
        TokenWay::Use(d.access_token->0)
    } else {
        match (d.refresh_token, d.client_id, d.client_secret) {
            (Some(refresh_token), Some(client_id), Some(client_secret)) => TokenWay::Refresh {
                client_id,
                client_secret,
                refresh_token,
            },
            (None, _, _) => TokenWay::Fail("Not connected to Google Drive"@),
            _ => TokenWay::Fail("Google OAuth credentials not configured"@),
        }
    }
}

/// When a token counts as expired that was given out in the second `now`.
pub open spec fn expiry_of(now: u64, expires_in: u64) -> nat {
    bandwidth::less(bandwidth::capped((now + expires_in) as nat), EXPIRY_MARGIN as nat)
}

/// The connection with another access token.
pub open spec fn with_access(d: Drive, token: Seq<char>, expiry: nat) -> Drive {
    Drive { access_token: Some(token), token_expiry: expiry as u64, ..d }
}

/// The connection with the tokens of a new sign-in. A refresh token is kept if none is given.
pub open spec fn signed_in(
    d: Drive,
    token: Seq<char>,
    expiry: nat,
    refresh: Option<Seq<char>>,
) -> Drive {
    Drive {
        refresh_token: if refresh is Some {
            refresh
        } else {
            d.refresh_token
        },
        ..with_access(d, token, expiry)
    }
}

fn expiry_from(now: u64, expires_in: u64) -> (res: u64)
    ensures
        res == expiry_of(now, expires_in),
{
    now.saturating_add(expires_in).saturating_sub(EXPIRY_MARGIN)
}

impl RefreshRequest {
    /// The form that asks for another access token.
    pub fn params(&self) -> (res: Vec<(String, String)>)
        ensures
            res.deep_view() == seq![
                ("client_id"@, self.client_id@),
                ("client_secret"@, self.client_secret@),
                ("refresh_token"@, self.refresh_token@),
                ("grant_type"@, "refresh_token"@),
            ],
    {
        let mut form = pairs::no_pairs();
        pairs::add_pair(&mut form, "client_id", self.client_id.clone());
        pairs::add_pair(&mut form, "client_secret", self.client_secret.clone());
        pairs::add_pair(&mut form, "refresh_token", self.refresh_token.clone());
        pairs::add_pair(&mut form, "grant_type", "refresh_token".to_owned());
        assert(form.deep_view() =~= seq![
            ("client_id"@, self.client_id@),
            ("client_secret"@, self.client_secret@),
            ("refresh_token"@, self.refresh_token@),
            ("grant_type"@, "refresh_token"@),
        ]);
        form
    }
}

impl GDriveState {
    /// How to come by a valid access token in the second `now`.
    pub fn get_valid_token_at(&self, now: u64) -> (res: TokenStep)
        ensures
            res@ == token_way(self@, now),
    {
        if now < self.token_expiry {
            if let Some(t) = &self.access_token {
                return TokenStep::Use(t.clone());
            }
        }
        let refresh_token = match &self.refresh_token {
            Some(t) => t.clone(),
            None => {
                return TokenStep::Fail("Not connected to Google Drive".to_owned());
            },
        };
        match (&self.client_id, &self.client_secret) {
            (Some(id), Some(secret)) => TokenStep::Refresh(
                RefreshRequest {
                    client_id: id.clone(),
                    client_secret: secret.clone(),
                    refresh_token,
                },
            ),
            _ => TokenStep::Fail("Google OAuth credentials not configured".to_owned()),
        }
    }

    /// How to come by a valid access token now.
    pub fn get_valid_token(&self) -> (res: TokenStep)
        ensures
            exists|now: u64| res@ == #[trigger] token_way(self@, now),
    {
        self.get_valid_token_at(clock::unix_now())
    }

    /// Takes up an access token that was given out in the second `now` for a refresh token.
    pub fn on_refreshed_at(&mut self, now: u64, answer: TokenResponse) -> (res: String)
        ensures
            final(self)@ == with_access(
                old(self)@,
                answer.access_token@,
                expiry_of(now, answer.expires_in),
            ),
            res@ == answer.access_token@,
    {
        let token = answer.access_token;
        self.access_token = Some(token.clone());
        self.token_expiry = expiry_from(now, answer.expires_in);
        token
    }

    /// Takes up an access token that was given out now for a refresh token.
    pub fn on_refreshed(&mut self, answer: TokenResponse) -> (res: String)
        ensures
            exists|now: u64|
                final(self)@ == with_access(
                    old(self)@,
                    answer.access_token@,
                    #[trigger] expiry_of(now, answer.expires_in),
                ),
            res@ == answer.access_token@,
    {
        self.on_refreshed_at(clock::unix_now(), answer)
    }

    /// Takes up the tokens of a sign-in in the second `now`.
    pub fn on_signed_in_at(&mut self, now: u64, answer: TokenResponse)
        ensures
            final(self)@ == signed_in(
                old(self)@,
                answer.access_token@,
                expiry_of(now, answer.expires_in),
                answer.refresh_token.deep_view(),
            ),
    {
        self.access_token = Some(answer.access_token);
        self.token_expiry = expiry_from(now, answer.expires_in);
        if answer.refresh_token.is_some() {
            self.refresh_token = answer.refresh_token;
        }
    }

    /// Takes up the tokens of a sign-in now.
    pub fn on_signed_in(&mut self, answer: TokenResponse)
        ensures
            exists|now: u64|
                final(self)@ == signed_in(
                    old(self)@,
                    answer.access_token@,
                    #[trigger] expiry_of(now, answer.expires_in),
                    answer.refresh_token.deep_view(),
                ),
    {
        self.on_signed_in_at(clock::unix_now(), answer)
    }

    /// Where to have the access token declared void, if there is one.
    pub fn revoke_url(&self) -> (res: Option<String>)
        ensures
            res.deep_view() == match self@.access_token {
                Some(t) => Some(
                    "https://oauth2.googleapis.com/revoke?token="@ + oauth::url_encoded(t),
                ),
                None => None,
            },
    {
        match &self.access_token {
            Some(t) => {
                let mut url = "https://oauth2.googleapis.com/revoke?token=".to_owned();
                let token = oauth::url_encode(t.as_str());
                url.append(token.as_str());
                Some(url)
            },
            None => None,
        }
    }
}

/// A token that was just given out is used until a minute before it ends, and another one is
/// asked for from then on.
pub proof fn law_token_is_used_until_it_expires(
    d: Drive,
    token: Seq<char>,
    issued: u64,
    expires_in: u64,
    now: u64,
)
    requires
        issued + expires_in <= u64::MAX,
    ensures
        ({
            let after = with_access(d, token, expiry_of(issued, expires_in));
            &&& now + EXPIRY_MARGIN < issued + expires_in ==> token_way(after, now)
                == TokenWay::Use(token)
            &&& now + EXPIRY_MARGIN >= issued + expires_in ==> !(token_way(after, now) is Use)
        }),
{
}

/// A connection that has been given up has no valid token, whatever the time.
pub proof fn law_no_token_when_disconnected(d: Drive, now: u64)
    ensures
        token_way(crate::commands::gdrive::state::disconnected(d), now) == TokenWay::Fail(
            "Not connected to Google Drive"@,
        ),
{
}

/// The access token is used while it is there and the second of its expiry has not come; after
/// that another is asked for with the refresh token and the credentials, and without one of
/// these there is no way.
pub proof fn law_ways_to_a_token(d: Drive, now: u64)
    ensures
        d.access_token matches Some(t) ==> now < d.token_expiry ==> token_way(d, now)
            == TokenWay::Use(t),
        d.access_token is None || now >= d.token_expiry ==> {
            &&& d.refresh_token is None ==> token_way(d, now) == TokenWay::Fail(
                "Not connected to Google Drive"@,
            )
            &&& d.refresh_token is Some && (d.client_id is None || d.client_secret is None)
                ==> token_way(d, now) == TokenWay::Fail("Google OAuth credentials not configured"@)
            &&& d.refresh_token is Some && d.client_id is Some && d.client_secret is Some
                ==> token_way(d, now) == (TokenWay::Refresh {
                client_id: d.client_id->0,
                client_secret: d.client_secret->0,
                refresh_token: d.refresh_token->0,
            })
        },
{
}

/// A token counts as expired sixty seconds before its time, and at once if it has less; its
/// time stays in the range of the clock.
pub proof fn law_expiry_is_a_minute_early(now: u64, expires_in: u64)
    ensures
        now + expires_in <= u64::MAX && now + expires_in >= 60 ==> expiry_of(now, expires_in) + 60
            == now + expires_in,
        now + expires_in < 60 ==> expiry_of(now, expires_in) == 0,
        now + expires_in > u64::MAX ==> expiry_of(now, expires_in) == u64::MAX - 60,
{
}

/// A refreshed token replaces the access token and its expiry; a sign-in also replaces the
/// refresh token, if it brings one. Nothing else of the connection changes.
pub proof fn law_new_tokens_replace_the_old(
    d: Drive,
    token: Seq<char>,
    expiry: u64,
    refresh: Seq<char>,
)
    ensures
        with_access(d, token, expiry as nat) == (Drive {
            access_token: Some(token),
            token_expiry: expiry,
            ..d
        }),
        signed_in(d, token, expiry as nat, None) == (Drive {
            access_token: Some(token),
            token_expiry: expiry,
            ..d
        }),
        signed_in(d, token, expiry as nat, Some(refresh)) == (Drive {
            access_token: Some(token),
            token_expiry: expiry,
            refresh_token: Some(refresh),
            ..d
        }),
{
}

/// Tokens are given out at one address, and the view of a way to one holds it as it is.
pub proof fn law_view_of_a_way(t: String, r: RefreshRequest)
    ensures
        TOKEN_URL@ == "https://oauth2.googleapis.com/token"@,
        TokenStep::Use(t)@ == TokenWay::Use(t@),
        TokenStep::Fail(t)@ == TokenWay::Fail(t@),
        TokenStep::Refresh(r)@ == (TokenWay::Refresh {
            client_id: r.client_id@,
            client_secret: r.client_secret@,
            refresh_token: r.refresh_token@,
        }),
{
}

} // verus!
