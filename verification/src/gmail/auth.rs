use vstd::prelude::*;
use crate::error::GmtuiError;
use vstd::utf8::encode_utf8;
use crate::text::{chars_of, find_chars, find_seq, lemma_find_seq, str_eq, string_of};

verus! {

/// The latest time, in seconds since the Unix epoch, that `chrono::DateTime<Utc>` holds.
pub const MAX_UTC_TIMESTAMP: i64 = 8_210_266_876_799;

/// The earliest time, in seconds since the Unix epoch, that `chrono::DateTime<Utc>` holds.
pub const MIN_UTC_TIMESTAMP: i64 = -8_334_601_315_200;

/// The longest span, in whole seconds, that `chrono::TimeDelta::from_std` accepts.
pub const MAX_DELTA_SECS: u64 = 9_223_372_036_854_775;

/// An OAuth token and when it expires.
#[derive(Debug)]
pub struct TokenStore {
    pub access_token: String,
    pub refresh_token: String,
    /// Seconds since the Unix epoch, UTC.
    pub expires_at: i64,
}

/// A token counts as expired from one minute before its expiry on.
pub open spec fn expired_at(expires_at: i64, now: i64) -> bool {
    now + 60 >= expires_at
}

impl TokenStore {
    /// Whether the token is expired at `now`, with a minute's margin.
    pub fn is_expired(&self, now: i64) -> (r: bool)
        ensures
            r == expired_at(self.expires_at, now),
    {
        (now as i128) + 60 >= (self.expires_at as i128)
    }
}

/// When a token issued at `now` expires: after the lifetime the server gave, or after an
/// hour where it gave none or one too long to hold.
pub open spec fn expiry_spec(now: i64, expires_in: Option<u64>) -> int {
    match expires_in {
        Some(d) => if d <= MAX_DELTA_SECS {
            now + d
        } else {
            now + 3600
        },
        None => now + 3600,
    }
}

/// The expiry lies within the times a `DateTime<Utc>` holds (adding past them panics).
pub open spec fn expiry_in_range(now: i64, expires_in: Option<u64>) -> bool {
    &&& now + 3600 <= MAX_UTC_TIMESTAMP
    &&& match expires_in {
        Some(d) => d <= MAX_DELTA_SECS ==> now + d <= MAX_UTC_TIMESTAMP,
        None => true,
    }
}

/// Whether the expiry of a token issued at `now` stays within what a `DateTime<Utc>`
/// holds; computing one past it panics.
pub fn expiry_fits(now: i64, expires_in: Option<u64>) -> (r: bool)
    ensures
        r == expiry_in_range(now, expires_in),
{
    let max = MAX_UTC_TIMESTAMP as i128;
    let now = now as i128;
    let lifetime_fits = match expires_in {
        Some(d) => if d <= MAX_DELTA_SECS {
            now + (d as i128) <= max
        } else {
            true
        },
        None => true,
    };
    now + 3600 <= max && lifetime_fits
}

/// When a token issued at `now` expires.
pub fn token_expiry(now: i64, expires_in: Option<u64>) -> (r: i64)
    requires
        expiry_in_range(now, expires_in),
    ensures
        r == expiry_spec(now, expires_in),
{
    match expires_in {
        Some(d) => if d <= MAX_DELTA_SECS {
            now + (d as i64)
        } else {
            now + 3600
        },
        None => now + 3600,
    }
}

/// The token kept after an exchange or a refresh: the new access token, the new refresh
/// token or else the one held before or else none, and the expiry.
pub fn issued_token(
    access_token: String,
    new_refresh: Option<String>,
    previous: &Option<TokenStore>,
    expires_in: Option<u64>,
    now: i64,
) -> (r: TokenStore)
    requires
        expiry_in_range(now, expires_in),
    ensures
        r.access_token == access_token,
        r.refresh_token@ == (match new_refresh {
            Some(t) => t@,
            None => match previous {
                Some(p) => p.refresh_token@,
                None => Seq::empty(),
            },
        }),
        r.expires_at == expiry_spec(now, expires_in),
{
    let expires_at = token_expiry(now, expires_in);
    let refresh_token = match new_refresh {
        Some(t) => t,
        None => match previous {
            Some(p) => p.refresh_token.clone(),
            None => String::new(),
        },
    };
    TokenStore { access_token, refresh_token, expires_at }
}

/// What authenticating does next with the token at hand.
#[derive(Debug)]
pub enum AuthStep {
    /// The held token is fresh: use its access token.
    UseToken(String),
    /// The held token has expired: refresh it.
    Refresh,
    /// No token is held: ask the user to authorize in the browser.
    Interactive,
}

impl TokenStore {
    /// What authenticating does next with `token` at `now`.
    pub fn next_auth_step(token: &Option<TokenStore>, now: i64) -> (r: AuthStep)
        ensures
            match token {
                Some(t) => if expired_at(t.expires_at, now) {
                    r is Refresh
                } else {
                    r == AuthStep::UseToken(t.access_token)
                },
                None => r is Interactive,
            },
    {
        match token {
            Some(t) => {
                if t.is_expired(now) {
                    AuthStep::Refresh
                } else {
                    AuthStep::UseToken(t.access_token.clone())
                }
            },
            None => AuthStep::Interactive,
        }
    }
}

/// The state returned with the authorization code must be the one sent with the request.
pub fn check_csrf(returned_state: &str, expected_state: &str) -> (r: Result<(), GmtuiError>)
    ensures
        r is Ok <==> returned_state@ == expected_state@,
        r matches Err(GmtuiError::Auth(m)) ==> m@ == "CSRF validation failed"@,
        r is Err ==> r matches Err(GmtuiError::Auth(_)),
{
    if str_eq(returned_state, expected_state) {
        Ok(())
    } else {
        Err(GmtuiError::Auth(String::from_str("CSRF validation failed")))
    }
}

} // verus!

verus! {

/// What `form_urlencoded::parse` of the `url` crate yields for some bytes: the
/// percent-decoded name and value pairs, in order.
pub uninterp spec fn url_form_pairs(query: Seq<u8>) -> Seq<(Seq<char>, Seq<char>)>;

/// `url::form_urlencoded::parse` with its pairs owned; the pairs are named `url_form_pairs`.
#[verifier::external_body]
fn form_pairs(query: &[u8]) -> (r: Vec<(String, String)>)
    ensures
        r@.map_values(|p: (String, String)| (p.0@, p.1@)) == url_form_pairs(query@),
{
    url::form_urlencoded::parse(query).into_owned().collect()
}

/// The value of the last pair named `key`, as collecting the pairs into a map keeps it.
pub open spec fn last_value(pairs: Seq<(Seq<char>, Seq<char>)>, key: Seq<char>) -> Option<Seq<char>>
    decreases pairs.len(),
{
    if pairs.len() == 0 {
        None
    } else if pairs.last().0 == key {
        Some(pairs.last().1)
    } else {
        last_value(pairs.drop_last(), key)
    }
}

fn last_value_of(pairs: &Vec<(String, String)>, key: &str) -> (r: Option<String>)
    ensures
        opt_seq(r) == last_value(pairs@.map_values(|p: (String, String)| (p.0@, p.1@)), key@),
{
    let ghost views = pairs@.map_values(|p: (String, String)| (p.0@, p.1@));
    let mut i: usize = pairs.len();
    assert(views.take(i as int) =~= views);
    while i > 0
        invariant
            i <= pairs.len(),
            views == pairs@.map_values(|p: (String, String)| (p.0@, p.1@)),
            last_value(views, key@) == last_value(views.take(i as int), key@),
        decreases i,
    {
        assert(views.take(i as int).drop_last() =~= views.take(i - 1));
        if str_eq(pairs[i - 1].0.as_str(), key) {
            return Some(pairs[i - 1].1.clone());
        }
        i = i - 1;
    }
    None
}

/// The characters of an optional string.
pub open spec fn opt_seq(o: Option<String>) -> Option<Seq<char>> {
    match o {
        Some(s) => Some(s@),
        None => None,
    }
}

/// The authorization code and state a redirect request line carries, or the message of
/// the error it gives. The path runs from the line's first `/` to its first ` HTTP`; a
/// line without both, or with the ` HTTP` first, is an invalid redirect.
pub open spec fn redirect_params(line: Seq<char>) -> Result<(Seq<char>, Seq<char>), Seq<char>> {
    match find_seq(line, "/"@) {
        None => Err("invalid redirect"@),
        Some(s) => match find_seq(line, " HTTP"@) {
            None => Err("invalid redirect"@),
            Some(e) => if e < s {
                Err("invalid redirect"@)
            } else {
                let path = line.subrange(s, e);
                match find_seq(path, "?"@) {
                    None => Err("missing query string"@),
                    Some(q) => {
                        let pairs = url_form_pairs(encode_utf8(path.skip(q + 1)));
                        match last_value(pairs, "error"@) {
                            Some(err) => Err("oauth error: "@ + err),
                            None => match last_value(pairs, "code"@) {
                                None => Err("missing auth code"@),
                                Some(code) => match last_value(pairs, "state"@) {
                                    None => Err("missing state"@),
                                    Some(state) => Ok((code, state)),
                                },
                            },
                        }
                    },
                }
            },
        },
    }
}

fn find_in(hay: &Vec<char>, lit: &str) -> (r: Option<usize>)
    ensures
        match r {
            Some(i) => find_seq(hay@, lit@) == Some(i as int) && i + lit@.len() <= hay@.len(),
            None => find_seq(hay@, lit@) is None,
        },
{
    let needle = chars_of(lit);
    let r = find_chars(hay, &needle);
    proof {
        lemma_find_seq(hay@, lit@, r);
    }
    r
}

fn auth_error(msg: &str) -> (r: GmtuiError)
    ensures
        r matches GmtuiError::Auth(m) && m@ == msg@,
{
    GmtuiError::Auth(String::from_str(msg))
}

/// The authorization code and state of the browser's redirect to the local listener,
/// read from the first line of its request.
pub fn parse_code_and_state(line: &str) -> (r: Result<(String, String), GmtuiError>)
    ensures
        match redirect_params(line@) {
            Ok((code, state)) => r matches Ok((c, s)) && c@ == code && s@ == state,
            Err(m) => r matches Err(GmtuiError::Auth(e)) && e@ == m,
        },
{
    let cs = chars_of(line);
    proof {
        reveal_strlit("?");
    }
    let start = match find_in(&cs, "/") {
        Some(s) => s,
        None => {
            return Err(auth_error("invalid redirect"));
        },
    };
    let end = match find_in(&cs, " HTTP") {
        Some(e) => e,
        None => {
            return Err(auth_error("invalid redirect"));
        },
    };
    if end < start {
        return Err(auth_error("invalid redirect"));
    }
    let mut path: Vec<char> = Vec::new();
    let mut k: usize = start;
    while k < end
        invariant
            start <= k <= end <= cs@.len(),
            path@ =~= cs@.subrange(start as int, k as int),
        decreases end - k,
    {
        path.push(cs[k]);
        k = k + 1;
    }
    let q = match find_in(&path, "?") {
        Some(q) => q,
        None => {
            return Err(auth_error("missing query string"));
        },
    };
    let mut query: Vec<char> = Vec::new();
    let mut k: usize = q + 1;
    while k < path.len()
        invariant
            q + 1 <= k <= path@.len(),
            query@ =~= path@.subrange(q + 1, k as int),
        decreases path.len() - k,
    {
        query.push(path[k]);
        k = k + 1;
    }
    assert(query@ =~= path@.skip(q + 1));
    let query_string = string_of(&query);
    let pairs = form_pairs(query_string.as_str().as_bytes());
    match last_value_of(&pairs, "error") {
        Some(err) => {
            let msg = String::from_str("oauth error: ").concat(err.as_str());
            return Err(GmtuiError::Auth(msg));
        },
        None => {},
    }
    let code = match last_value_of(&pairs, "code") {
        Some(c) => c,
        None => {
            return Err(auth_error("missing auth code"));
        },
    };
    let state = match last_value_of(&pairs, "state") {
        Some(s) => s,
        None => {
            return Err(auth_error("missing state"));
        },
    };
    Ok((code, state))
}

} // verus!
