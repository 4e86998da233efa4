use vstd::prelude::*;
use crate::text::{replace, replace_all, split, split_on, str_eq, views};

verus! {

/// A Microsoft account after a completed sign-in.
#[derive(Clone, Debug)]
pub struct MicrosoftAccount {
    pub username: String,
    pub uuid: String,
    pub access_token: String,
    pub refresh_token: Option<String>,
}

/// An account as the account store keeps it.
#[derive(Clone, Debug)]
pub struct SavedAccount {
    pub username: String,
    pub uuid: String,
    pub access_token: String,
    pub refresh_token: Option<String>,
    pub is_microsoft: bool,
}

/// The account store: the accounts and the username of the active one.
#[derive(Clone, Debug)]
pub struct AccountsData {
    pub accounts: Vec<SavedAccount>,
    pub active_account: Option<String>,
}

/// What the token endpoint answered.
#[derive(Clone, Debug)]
pub struct TokenResponse {
    pub access_token: Option<String>,
    pub refresh_token: Option<String>,
    pub error: Option<String>,
    pub error_description: Option<String>,
}

/// The codes of a device-code sign-in that the user is shown.
#[derive(Clone, Debug)]
pub struct DeviceCodeInfo {
    pub user_code: String,
    pub verification_uri: String,
    pub device_code: String,
    pub interval: u32,
}

#[derive(Clone, Debug)]
pub struct SkinInfo {
    pub id: String,
    pub state: String,
    pub url: String,
    pub variant: String,
}

#[derive(Clone, Debug)]
pub struct CapeInfo {
    pub id: String,
    pub state: String,
    pub url: String,
    pub alias: String,
}

#[derive(Clone, Debug)]
pub struct FullProfile {
    pub id: String,
    pub name: String,
    pub skins: Vec<SkinInfo>,
    pub capes: Vec<CapeInfo>,
}

/// Whether a stored account is the same account as `acc`: by UUID for
/// Microsoft accounts, by username for offline ones.
pub open spec fn same_account(a: SavedAccount, acc: SavedAccount) -> bool {
    if acc.is_microsoft {
        a.is_microsoft && a.uuid@ == acc.uuid@
    } else {
        !a.is_microsoft && a.username@ == acc.username@
    }
}

/// The position of the first stored account that is the same as `acc`.
pub open spec fn first_same(accounts: Seq<SavedAccount>, acc: SavedAccount, i: int) -> bool {
    0 <= i < accounts.len() && same_account(accounts[i], acc) && forall|j: int|
        0 <= j < i ==> !same_account(accounts[j], acc)
}

fn find_same(accounts: &Vec<SavedAccount>, acc: &SavedAccount) -> (r: Option<usize>)
    ensures
        match r {
            Some(i) => first_same(accounts@, *acc, i as int),
            None => forall|j: int| 0 <= j < accounts@.len() ==> !same_account(accounts@[j], *acc),
        },
{
    let mut i: usize = 0;
    while i < accounts.len()
        invariant
            i <= accounts@.len(),
            forall|j: int| 0 <= j < i ==> !same_account(accounts@[j], *acc),
        decreases accounts.len() - i,
    {
        let a = &accounts[i];
        let same = if acc.is_microsoft {
            a.is_microsoft && str_eq(a.uuid.as_str(), acc.uuid.as_str())
        } else {
            !a.is_microsoft && str_eq(a.username.as_str(), acc.username.as_str())
        };
        if same {
            return Some(i);
        }
        i = i + 1;
    }
    None
}

/// The account list after adding `acc`: it replaces the first stored account
/// that is the same, else it is appended.
pub open spec fn added_accounts(accounts: Seq<SavedAccount>, acc: SavedAccount) -> Seq<SavedAccount> {
    if exists|i: int| first_same(accounts, acc, i) {
        accounts.update(choose|i: int| first_same(accounts, acc, i), acc)
    } else {
        accounts.push(acc)
    }
}

/// Adds an account, or updates the stored one that is the same account; it
/// becomes the active account when it is the only one or none was active.
pub fn add_account(data: &mut AccountsData, account: SavedAccount)
    ensures
        final(data).accounts@ == added_accounts(old(data).accounts@, account),
        final(data).active_account == if final(data).accounts@.len() == 1 || old(data).active_account is None {
            Some(account.username)
        } else {
            old(data).active_account
        },
{
    let username = account.username.clone();
    match find_same(&data.accounts, &account) {
        Some(i) => {
            proof {
                assert(first_same(old(data).accounts@, account, i as int));
                assert forall|k: int| first_same(old(data).accounts@, account, k) implies k == i by {
                    if k < i {
                        assert(!same_account(old(data).accounts@[k], account));
                    }
                    if k > i {
                        assert(!same_account(old(data).accounts@[i as int], account));
                    }
                }
            }
            data.accounts.set(i, account);
        },
        None => {
            data.accounts.push(account);
        },
    }
    if data.accounts.len() == 1 || data.active_account.is_none() {
        data.active_account = Some(username);
    }
}

/// Whether a stored account has another username than `username`.
pub open spec fn other_user(username: Seq<char>) -> spec_fn(SavedAccount) -> bool {
    |a: SavedAccount| a.username@ != username
}

/// Removes every account with username `username`; when it was the active
/// one, the first remaining account becomes active (none if none remains).
pub fn remove_account(data: &mut AccountsData, username: &str)
    ensures
        final(data).accounts@ == old(data).accounts@.filter(other_user(username@)),
        final(data).active_account == if old(data).active_account is Some && old(data).active_account->0@ == username@ {
            if final(data).accounts@.len() > 0 { Some(final(data).accounts@[0].username) } else { None }
        } else {
            old(data).active_account
        },
{
    let ghost orig = data.accounts@;
    let mut kept: Vec<SavedAccount> = Vec::new();
    let n = data.accounts.len();
    let mut j: usize = 0;
    assert(orig.subrange(0, 0).filter(other_user(username@)) =~= Seq::<SavedAccount>::empty()) by {
        reveal(Seq::filter);
    }
    while data.accounts.len() > 0
        invariant
            orig.len() == n,
            j <= n,
            data.accounts@ == orig.subrange(j as int, n as int),
            kept@ == orig.subrange(0, j as int).filter(other_user(username@)),
            data.active_account == old(data).active_account,
        decreases data.accounts.len(),
    {
        let a = data.accounts.remove(0);
        assert(a == orig[j as int]);
        proof {
            assert(orig.subrange(0, j + 1) =~= orig.subrange(0, j as int).push(a));
            orig.subrange(0, j as int).lemma_filter_push(a, other_user(username@));
        }
        if !str_eq(a.username.as_str(), username) {
            kept.push(a);
        }
        j = j + 1;
        assert(data.accounts@ =~= orig.subrange(j as int, n as int));
    }
    assert(orig.subrange(0, n as int) =~= orig);
    data.accounts = kept;
    let was_active = match &data.active_account {
        Some(a) => str_eq(a.as_str(), username),
        None => false,
    };
    if was_active {
        if data.accounts.len() > 0 {
            data.active_account = Some(data.accounts[0].username.clone());
        } else {
            data.active_account = None;
        }
    }
}

/// Why an account operation failed.
#[derive(Clone, Copy, Debug, PartialEq, Eq, Structural)]
pub enum AccountError {
    /// No stored account has the username.
    NotFound,
}

/// Makes the account with username `username` the active one.
pub fn set_active_account(data: &mut AccountsData, username: &str) -> (r: Result<(), AccountError>)
    ensures
        final(data).accounts == old(data).accounts,
        match r {
            Ok(()) => (exists|i: int| 0 <= i < old(data).accounts@.len() && #[trigger] old(data).accounts@[i].username@ == username@)
                && final(data).active_account is Some && final(data).active_account->0@ == username@,
            Err(e) => e == AccountError::NotFound && final(data).active_account == old(data).active_account
                && forall|i: int| 0 <= i < old(data).accounts@.len() ==> #[trigger] old(data).accounts@[i].username@ != username@,
        },
{
    let mut i: usize = 0;
    while i < data.accounts.len()
        invariant
            data.accounts == old(data).accounts,
            data.active_account == old(data).active_account,
            i <= data.accounts@.len(),
            forall|j: int| 0 <= j < i ==> #[trigger] data.accounts@[j].username@ != username@,
        decreases data.accounts.len() - i,
    {
        if str_eq(data.accounts[i].username.as_str(), username) {
            data.active_account = Some(username.to_owned());
            return Ok(());
        }
        i = i + 1;
    }
    Err(AccountError::NotFound)
}


/// What `urlencoding::decode` gives for a string: the percent-decoded text, or
/// `None` where the decoded bytes are not UTF-8.
pub uninterp spec fn url_decoded(s: Seq<char>) -> Option<Seq<char>>;

/// Relies on `urlencoding::decode`: percent-decodes; the result depends on the
/// text alone, and a text without `%` comes back unchanged.
#[verifier::external_body]
fn url_decode(s: &str) -> (r: Option<String>)
    ensures
        match r {
            Some(d) => url_decoded(s@) == Some(d@),
            None => url_decoded(s@) is None,
        },
        !s@.contains('%') ==> r is Some && r->0@ == s@,
{
    match urlencoding::decode(s) {
        Ok(d) => Some(d.into_owned()),
        Err(_) => None,
    }
}

/// A form value decoded, or left as it is when it does not decode.
pub open spec fn decoded_or_raw(s: Seq<char>) -> Seq<char> {
    match url_decoded(s) {
        Some(d) => d,
        None => s,
    }
}

/// `s` split at its first `c`, if it has one.
pub open spec fn split_once(s: Seq<char>, c: char) -> Option<(Seq<char>, Seq<char>)> {
    if exists|i: int| 0 <= i < s.len() && s[i] == c {
        let i = choose|i: int| 0 <= i < s.len() && s[i] == c && forall|j: int| 0 <= j < i ==> s[j] != c;
        Some((s.subrange(0, i), s.subrange(i + 1, s.len() as int)))
    } else {
        None
    }
}

/// The `key=value` pairs of `&`-separated pieces, decoded; a piece without
/// `=` is skipped.
pub open spec fn form_pairs(pieces: Seq<Seq<char>>) -> Seq<(Seq<char>, Seq<char>)>
    decreases pieces.len(),
{
    if pieces.len() == 0 {
        Seq::empty()
    } else {
        let before = form_pairs(pieces.drop_last());
        match split_once(pieces.last(), '=') {
            Some((k, v)) => before.push((decoded_or_raw(k), decoded_or_raw(v))),
            None => before,
        }
    }
}

/// The views of a list of string pairs.
pub open spec fn pair_views(v: Seq<(String, String)>) -> Seq<(Seq<char>, Seq<char>)> {
    v.map_values(|p: (String, String)| (p.0@, p.1@))
}

/// Splits `s` at its first `c`.
pub fn split_once_at(s: &str, c: char) -> (r: Option<(String, String)>)
    ensures
        match r {
            Some((a, b)) => split_once(s@, c) == Some((a@, b@)),
            None => split_once(s@, c) is None,
        },
{
    let n = s.unicode_len();
    let mut i: usize = 0;
    while i < n
        invariant
            n == s@.len(),
            i <= n,
            forall|j: int| 0 <= j < i ==> s@[j] != c,
        decreases n - i,
    {
        if s.get_char(i) == c {
            let ghost k = choose|k: int| 0 <= k < s@.len() && s@[k] == c && forall|j: int| 0 <= j < k ==> s@[j] != c;
            assert(k == i) by {
                if k < i {
                    assert(s@[k] != c);
                }
                if k > i {
                    assert(s@[i as int] == c);
                }
            }
            let a = s.substring_char(0, i);
            let b = s.substring_char(i + 1, n);
            return Some((a.to_owned(), b.to_owned()));
        }
        i = i + 1;
    }
    None
}

fn decode_or_raw(s: &str) -> (r: String)
    ensures
        r@ == decoded_or_raw(s@),
{
    match url_decode(s) {
        Some(d) => d,
        None => s.to_owned(),
    }
}

/// Parses a form-encoded body into its decoded `key=value` pairs, in order.
pub fn parse_form_encoded_pairs(body: &str) -> (r: Vec<(String, String)>)
    ensures
        pair_views(r@) == form_pairs(split_on(body@, '&')),
{
    let pieces = split(body, '&');
    let mut out: Vec<(String, String)> = Vec::new();
    let mut i: usize = 0;
    assert(views(pieces@).subrange(0, 0) =~= Seq::<Seq<char>>::empty());
    assert(pair_views(out@) =~= Seq::<(Seq<char>, Seq<char>)>::empty());
    while i < pieces.len()
        invariant
            i <= pieces@.len(),
            views(pieces@) == split_on(body@, '&'),
            pair_views(out@) == form_pairs(views(pieces@).subrange(0, i as int)),
        decreases pieces.len() - i,
    {
        proof {
            let t = views(pieces@).subrange(0, i + 1);
            assert(t.drop_last() =~= views(pieces@).subrange(0, i as int));
            assert(t.last() == pieces@[i as int]@);
        }
        let ghost before = pair_views(out@);
        match split_once_at(pieces[i].as_str(), '=') {
            Some((k, v)) => {
                let dk = decode_or_raw(k.as_str());
                let dv = decode_or_raw(v.as_str());
                out.push((dk, dv));
                assert(pair_views(out@) =~= before.push((decoded_or_raw(k@), decoded_or_raw(v@))));
            },
            None => {},
        }
        i = i + 1;
    }
    assert(views(pieces@).subrange(0, pieces@.len() as int) =~= views(pieces@));
    out
}

/// The value of the last pair with key `key`, as a map built from the pairs
/// in order holds it.
pub open spec fn form_field(pairs: Seq<(Seq<char>, Seq<char>)>, key: Seq<char>) -> Option<Seq<char>>
    decreases pairs.len(),
{
    if pairs.len() == 0 {
        None
    } else if pairs.last().0 == key {
        Some(pairs.last().1)
    } else {
        form_field(pairs.drop_last(), key)
    }
}

/// Looks up a field of parsed form pairs; a later pair overrides an earlier one.
pub fn get_form_field(pairs: &Vec<(String, String)>, key: &str) -> (r: Option<String>)
    ensures
        match r {
            Some(v) => form_field(pair_views(pairs@), key@) == Some(v@),
            None => form_field(pair_views(pairs@), key@) is None,
        },
{
    let mut i: usize = pairs.len();
    assert(pair_views(pairs@).subrange(0, i as int) =~= pair_views(pairs@));
    while i > 0
        invariant
            i <= pairs@.len(),
            form_field(pair_views(pairs@).subrange(0, i as int), key@) == form_field(pair_views(pairs@), key@),
        decreases i,
    {
        let ghost t = pair_views(pairs@).subrange(0, i as int);
        assert(t.drop_last() =~= pair_views(pairs@).subrange(0, i - 1));
        assert(t.last() == (pairs@[i - 1].0@, pairs@[i - 1].1@));
        if str_eq(pairs[i - 1].0.as_str(), key) {
            return Some(pairs[i - 1].1.clone());
        }
        i = i - 1;
    }
    None
}

/// The longest response body, in characters, quoted in an error message.
pub const BODY_QUOTE_LIMIT: usize = 280;

/// A response body for an error message: line breaks made spaces, and cut to
/// the limit with `...` appended when longer.
pub open spec fn truncated_body(body: Seq<char>) -> Seq<char> {
    let compact = replace_all(replace_all(body, "\n"@, " "@), "\r"@, " "@);
    if compact.len() > BODY_QUOTE_LIMIT {
        compact.subrange(0, BODY_QUOTE_LIMIT as int) + "..."@
    } else {
        compact
    }
}

/// Shortens a response body for an error message.
pub fn truncate_body(body: &str) -> (r: String)
    ensures
        r@ == truncated_body(body@),
{
    proof {
        reveal_strlit("\n");
        reveal_strlit("\r");
    }
    let a = replace(body, "\n", " ");
    let compact = replace(a.as_str(), "\r", " ");
    if compact.as_str().unicode_len() > BODY_QUOTE_LIMIT {
        let mut cut = compact.as_str().substring_char(0, BODY_QUOTE_LIMIT).to_owned();
        cut.append("...");
        cut
    } else {
        compact
    }
}

/// Why a sign-in failed.
#[derive(Clone, Copy, Debug, PartialEq, Eq, Structural)]
pub enum AuthError {
    /// The device code expired before the user signed in.
    DeviceCodeExpired,
    /// The user refused the sign-in.
    UserDenied,
    /// The account does not own the game.
    NoMinecraft,
    /// A request failed or was refused.
    NetworkDuringAuth,
    /// The stored refresh token no longer works.
    InvalidRefreshToken,
}

/// What a device-code poll leads to.
#[derive(Clone, Debug)]
pub enum PollStep {
    /// Poll again after this many seconds.
    Wait(u32),
    /// The user signed in: the Microsoft access token.
    Done(String),
    /// The sign-in ended.
    Failed(AuthError),
}

/// The step after one answer of the token endpoint: `authorization_pending`
/// keeps the interval and `slow_down` doubles it (saturating); an access
/// token ends the poll; `expired_token`, `access_denied`, any other error, or
/// a failed request end it with an error.
pub open spec fn poll_step(token: TokenResponse, status_ok: bool, interval: u32) -> PollStep {
    match token.error {
        Some(e) => if e@ == "authorization_pending"@ {
            PollStep::Wait(interval)
        } else if e@ == "slow_down"@ {
            PollStep::Wait(if interval > u32::MAX / 2 { u32::MAX } else { (interval * 2) as u32 })
        } else if e@ == "expired_token"@ {
            PollStep::Failed(AuthError::DeviceCodeExpired)
        } else if e@ == "access_denied"@ {
            PollStep::Failed(AuthError::UserDenied)
        } else {
            PollStep::Failed(AuthError::NetworkDuringAuth)
        },
        None => if !status_ok {
            PollStep::Failed(AuthError::NetworkDuringAuth)
        } else {
            match token.access_token {
                Some(t) => PollStep::Done(t),
                None => PollStep::Failed(AuthError::NetworkDuringAuth),
            }
        },
    }
}

/// Decides what follows one answer of the token endpoint.
pub fn next_poll_step(token: &TokenResponse, status_ok: bool, interval: u32) -> (r: PollStep)
    ensures
        r == poll_step(*token, status_ok, interval),
{
    match &token.error {
        Some(e) => {
            if str_eq(e.as_str(), "authorization_pending") {
                PollStep::Wait(interval)
            } else if str_eq(e.as_str(), "slow_down") {
                PollStep::Wait(if interval > u32::MAX / 2 { u32::MAX } else { interval * 2 })
            } else if str_eq(e.as_str(), "expired_token") {
                PollStep::Failed(AuthError::DeviceCodeExpired)
            } else if str_eq(e.as_str(), "access_denied") {
                PollStep::Failed(AuthError::UserDenied)
            } else {
                PollStep::Failed(AuthError::NetworkDuringAuth)
            }
        },
        None => {
            if !status_ok {
                PollStep::Failed(AuthError::NetworkDuringAuth)
            } else {
                match &token.access_token {
                    Some(t) => PollStep::Done(t.clone()),
                    None => PollStep::Failed(AuthError::NetworkDuringAuth),
                }
            }
        },
    }
}

/// What the profile request's status says: 403 and 404 mean the account
/// does not own the game, any other non-success status a failed request.
pub fn profile_status_error(status: u16) -> (r: Option<AuthError>)
    ensures
        r == if 200 <= status < 300 {
            None::<AuthError>
        } else if status == 403 || status == 404 {
            Some(AuthError::NoMinecraft)
        } else {
            Some(AuthError::NetworkDuringAuth)
        },
{
    if 200 <= status && status < 300 {
        None
    } else if status == 403 || status == 404 {
        Some(AuthError::NoMinecraft)
    } else {
        Some(AuthError::NetworkDuringAuth)
    }
}

/// The default interval, in seconds, between device-code polls.
pub const DEFAULT_POLL_INTERVAL: u32 = 5;

/// The verification address of a device-code answer: `verification_uri`,
/// else `verification_url`.
pub open spec fn verification_field(pv: Seq<(Seq<char>, Seq<char>)>) -> Option<Seq<char>> {
    match form_field(pv, "verification_uri"@) {
        Some(u) => Some(u),
        None => form_field(pv, "verification_url"@),
    }
}

/// A field that is present and not empty.
pub open spec fn filled(f: Option<Seq<char>>) -> bool {
    f is Some && f->0.len() > 0
}

/// A device-code answer is usable: it has no `error` field, and its device
/// code, user code and verification address are present and not empty.
pub open spec fn device_answer_ok(pv: Seq<(Seq<char>, Seq<char>)>) -> bool {
    form_field(pv, "error"@) is None && filled(form_field(pv, "device_code"@)) && filled(form_field(pv, "user_code"@))
        && filled(verification_field(pv))
}

/// Builds the device-code information from the fields of a form-encoded
/// answer, the interval defaulting to five seconds; an `error` field, or a
/// missing or empty code or address, fails the sign-in.
pub fn device_code_from_fields(pairs: &Vec<(String, String)>) -> (r: Result<DeviceCodeInfo, AuthError>)
    ensures
        r is Ok <==> device_answer_ok(pair_views(pairs@)),
        match r {
            Ok(info) => form_field(pair_views(pairs@), "device_code"@) == Some(info.device_code@)
                && form_field(pair_views(pairs@), "user_code"@) == Some(info.user_code@)
                && verification_field(pair_views(pairs@)) == Some(info.verification_uri@)
                && info.interval == match form_field(pair_views(pairs@), "interval"@) {
                    Some(v) => match crate::java::parse_u32_spec(v) {
                        Some(n) => n,
                        None => DEFAULT_POLL_INTERVAL,
                    },
                    None => DEFAULT_POLL_INTERVAL,
                },
            Err(e) => e == AuthError::NetworkDuringAuth,
        },
{
    if get_form_field(pairs, "error").is_some() {
        return Err(AuthError::NetworkDuringAuth);
    }
    let device_code = match get_form_field(pairs, "device_code") {
        Some(v) => v,
        None => return Err(AuthError::NetworkDuringAuth),
    };
    let user_code = match get_form_field(pairs, "user_code") {
        Some(v) => v,
        None => return Err(AuthError::NetworkDuringAuth),
    };
    let verification_uri = match get_form_field(pairs, "verification_uri") {
        Some(v) => v,
        None => match get_form_field(pairs, "verification_url") {
            Some(v) => v,
            None => return Err(AuthError::NetworkDuringAuth),
        },
    };
    if device_code.as_str().unicode_len() == 0 || user_code.as_str().unicode_len() == 0
        || verification_uri.as_str().unicode_len() == 0 {
        return Err(AuthError::NetworkDuringAuth);
    }
    let interval = match get_form_field(pairs, "interval") {
        Some(v) => match crate::java::parse_u32(v.as_str()) {
            Some(n) => n,
            None => DEFAULT_POLL_INTERVAL,
        },
        None => DEFAULT_POLL_INTERVAL,
    };
    Ok(DeviceCodeInfo { user_code, verification_uri, device_code, interval })
}


/// Stores a refreshed account in place of the stored one that is the same
/// account; the active pointer moves only if it referred to that account's
/// username, and then follows its new username. Fails, changing nothing,
/// when the account is not stored.
pub fn refresh_account(data: &mut AccountsData, account: SavedAccount) -> (r: Result<(), AccountError>)
    ensures
        match r {
            Ok(()) => exists|i: int|
                first_same(old(data).accounts@, account, i) && final(data).accounts@ == old(data).accounts@.update(i, account)
                    && final(data).active_account == if old(data).active_account is Some
                    && old(data).active_account->0@ == old(data).accounts@[i].username@ {
                    Some(account.username)
                } else {
                    old(data).active_account
                },
            Err(e) => e == AccountError::NotFound && *final(data) == *old(data) && forall|j: int|
                0 <= j < old(data).accounts@.len() ==> !same_account(old(data).accounts@[j], account),
        },
{
    match find_same(&data.accounts, &account) {
        Some(i) => {
            let was_active = match &data.active_account {
                Some(a) => str_eq(a.as_str(), data.accounts[i].username.as_str()),
                None => false,
            };
            let username = account.username.clone();
            data.accounts.set(i, account);
            if was_active {
                data.active_account = Some(username);
            }
            Ok(())
        },
        None => Err(AccountError::NotFound),
    }
}

/// The public client id of the Xbox Live sign-in.
pub const MICROSOFT_CLIENT_ID: &'static str = "000000004C12AE6F";

/// The scope that the sign-in asks for.
pub const XBOX_SCOPE: &'static str = "service::user.auth.xboxlive.com::MBI_SSL";

fn pair(k: &str, v: &str) -> (r: (String, String))
    ensures
        r.0@ == k@ && r.1@ == v@,
{
    (k.to_owned(), v.to_owned())
}

/// The form that starts a device-code sign-in.
pub fn device_code_form() -> (r: Vec<(String, String)>)
    ensures
        pair_views(r@) == seq![
            ("client_id"@, MICROSOFT_CLIENT_ID@),
            ("scope"@, XBOX_SCOPE@),
            ("response_type"@, "device_code"@),
        ],
{
    let mut v: Vec<(String, String)> = Vec::new();
    v.push(pair("client_id", MICROSOFT_CLIENT_ID));
    v.push(pair("scope", XBOX_SCOPE));
    v.push(pair("response_type", "device_code"));
    assert(pair_views(v@) =~= seq![
        ("client_id"@, MICROSOFT_CLIENT_ID@),
        ("scope"@, XBOX_SCOPE@),
        ("response_type"@, "device_code"@),
    ]);
    v
}

/// The form of one device-code poll.
pub fn token_poll_form(device_code: &str) -> (r: Vec<(String, String)>)
    ensures
        pair_views(r@) == seq![
            ("client_id"@, MICROSOFT_CLIENT_ID@),
            ("grant_type"@, "urn:ietf:params:oauth:grant-type:device_code"@),
            ("device_code"@, device_code@),
        ],
{
    let mut v: Vec<(String, String)> = Vec::new();
    v.push(pair("client_id", MICROSOFT_CLIENT_ID));
    v.push(pair("grant_type", "urn:ietf:params:oauth:grant-type:device_code"));
    v.push(pair("device_code", device_code));
    assert(pair_views(v@) =~= seq![
        ("client_id"@, MICROSOFT_CLIENT_ID@),
        ("grant_type"@, "urn:ietf:params:oauth:grant-type:device_code"@),
        ("device_code"@, device_code@),
    ]);
    v
}

/// The form that trades a refresh token for a new access token.
pub fn refresh_form(refresh_token: &str) -> (r: Vec<(String, String)>)
    ensures
        pair_views(r@) == seq![
            ("client_id"@, MICROSOFT_CLIENT_ID@),
            ("grant_type"@, "refresh_token"@),
            ("refresh_token"@, refresh_token@),
            ("scope"@, XBOX_SCOPE@),
        ],
{
    let mut v: Vec<(String, String)> = Vec::new();
    v.push(pair("client_id", MICROSOFT_CLIENT_ID));
    v.push(pair("grant_type", "refresh_token"));
    v.push(pair("refresh_token", refresh_token));
    v.push(pair("scope", XBOX_SCOPE));
    assert(pair_views(v@) =~= seq![
        ("client_id"@, MICROSOFT_CLIENT_ID@),
        ("grant_type"@, "refresh_token"@),
        ("refresh_token"@, refresh_token@),
        ("scope"@, XBOX_SCOPE@),
    ]);
    v
}

/// The identity token that Minecraft Services accepts for an Xbox user:
/// `XBL3.0 x=<user hash>;<XSTS token>`.
pub fn xbl_identity_token(user_hash: &str, xsts_token: &str) -> (r: String)
    ensures
        r@ == "XBL3.0 x="@ + user_hash@ + ";"@ + xsts_token@,
{
    let mut t = "XBL3.0 x=".to_owned();
    t.append(user_hash);
    t.append(";");
    t.append(xsts_token);
    t
}

/// The authorization header value for a bearer token.
pub fn bearer(token: &str) -> (r: String)
    ensures
        r@ == "Bearer "@ + token@,
{
    let mut t = "Bearer ".to_owned();
    t.append(token);
    t
}

/// The outcome of a refresh: an error field means the refresh token no
/// longer works; a failed request or a missing token is a failed request;
/// else the new Microsoft access token.
pub fn refresh_outcome(token: &TokenResponse, status_ok: bool) -> (r: Result<String, AuthError>)
    ensures
        match r {
            Ok(t) => token.error is None && status_ok && token.access_token == Some(t),
            Err(e) => if token.error is Some {
                e == AuthError::InvalidRefreshToken
            } else {
                e == AuthError::NetworkDuringAuth && (!status_ok || token.access_token is None)
            },
        },
{
    if token.error.is_some() {
        return Err(AuthError::InvalidRefreshToken);
    }
    if !status_ok {
        return Err(AuthError::NetworkDuringAuth);
    }
    match &token.access_token {
        Some(t) => Ok(t.clone()),
        None => Err(AuthError::NetworkDuringAuth),
    }
}

/// The stored form of a Microsoft account after a sign-in or a refresh.
pub fn saved_microsoft_account(account: MicrosoftAccount) -> (r: SavedAccount)
    ensures
        r.username == account.username,
        r.uuid == account.uuid,
        r.access_token == account.access_token,
        r.refresh_token == account.refresh_token,
        r.is_microsoft,
{
    SavedAccount {
        username: account.username,
        uuid: account.uuid,
        access_token: account.access_token,
        refresh_token: account.refresh_token,
        is_microsoft: true,
    }
}

} // verus!
