//! Obtaining an OAuth access token for the bot: the authorization URL, the
//! forms sent to the token endpoint, reading the token from the reply,
//! reading the browser's callback, and the order in which a saved token is
//! tried, refreshed, or replaced by a new authorization.
use vstd::prelude::*;
use vstd::string::*;
use vstd::utf8::encode_utf8;
use crate::config::AuthConfig;
use crate::errors::AuthError;
use crate::text::{chars_of, find_in, find_from, find_spec, string_from_chars};

verus! {

/// An OAuth access token with what renews it.
#[derive(Clone, Debug, PartialEq, Eq)]
pub struct Token {
    pub access_token: String,
    pub refresh_token: String,
    pub expires_in: u64,
}

/// A token as a mathematical value.
pub struct TokenView {
    pub access_token: Seq<char>,
    pub refresh_token: Seq<char>,
    pub expires_in: u64,
}

impl View for Token {
    type V = TokenView;

    open spec fn view(&self) -> TokenView {
        TokenView {
            access_token: self.access_token@,
            refresh_token: self.refresh_token@,
            expires_in: self.expires_in,
        }
    }
}

impl Token {
    /// A copy of the token.
    pub fn copy(&self) -> (r: Token)
        ensures
            r == *self,
    {
        Token {
            access_token: self.access_token.clone(),
            refresh_token: self.refresh_token.clone(),
            expires_in: self.expires_in,
        }
    }
}

/// The fields of the token endpoint's JSON reply that the bot reads: each is
/// present when the reply holds it with the right type (a string, or an
/// unsigned integer for `expires_in`).
#[derive(Clone, Debug, PartialEq, Eq)]
pub struct TokenResponse {
    pub access_token: Option<String>,
    pub refresh_token: Option<String>,
    pub expires_in: Option<u64>,
}

impl TokenResponse {
    /// The token that the reply holds: both token strings are needed, and a
    /// missing lifetime counts as 0.
    pub fn into_token(self) -> (r: Result<Token, AuthError>)
        ensures
            match (self.access_token, self.refresh_token) {
                (Some(a), Some(f)) => r == Ok::<Token, AuthError>(
                    Token {
                        access_token: a,
                        refresh_token: f,
                        expires_in: match self.expires_in {
                            Some(e) => e,
                            None => 0,
                        },
                    },
                ),
                _ => r == Err::<Token, AuthError>(AuthError::ParseError),
            },
    {
        let access_token = match self.access_token {
            Some(a) => a,
            None => {
                return Err(AuthError::ParseError);
            },
        };
        let refresh_token = match self.refresh_token {
            Some(f) => f,
            None => {
                return Err(AuthError::ParseError);
            },
        };
        let expires_in = match self.expires_in {
            Some(e) => e,
            None => 0,
        };
        Ok(Token { access_token, refresh_token, expires_in })
    }
}

/// The upper-case hexadecimal digit of a value below 16.
pub open spec fn hex_digit(d: u8) -> char {
    if d < 10 {
        ((48 + d) as u32) as char
    } else {
        ((55 + d) as u32) as char
    }
}

/// The bytes that percent-encoding keeps: ASCII letters and digits, `-`,
/// `.`, `_` and `~`.
pub open spec fn is_unreserved(b: u8) -> bool {
    ||| 48 <= b <= 57
    ||| 65 <= b <= 90
    ||| 97 <= b <= 122
    ||| b == 45
    ||| b == 46
    ||| b == 95
    ||| b == 126
}

/// Percent-encoding of a byte sequence: an unreserved byte stands for
/// itself, any other becomes `%` and two upper-case hexadecimal digits.
pub open spec fn percent_encode(bytes: Seq<u8>) -> Seq<char>
    decreases bytes.len(),
{
    if bytes.len() == 0 {
        seq![]
    } else {
        let b = bytes.last();
        percent_encode(bytes.drop_last()) + if is_unreserved(b) {
            seq![(b as u32) as char]
        } else {
            seq!['%', hex_digit(b >> 4), hex_digit(b & 15)]
        }
    }
}

/// Percent-encoding works byte by byte: nothing gives nothing, a
/// concatenation gives the concatenation of the parts, an ASCII digit
/// (48-57), upper-case letter (65-90) or lower-case letter (97-122) or one of
/// `-` (45), `.` (46), `_` (95), `~` (126) stands for itself, and any other byte
/// `x` becomes `%`, then the upper-case hexadecimal digits of `x / 16` and
/// `x % 16`.
pub proof fn lemma_percent_encode(a: Seq<u8>, b: Seq<u8>, x: u8)
    ensures
        percent_encode(seq![]) == Seq::<char>::empty(),
        percent_encode(a + b) == percent_encode(a) + percent_encode(b),
        (48 <= x <= 57 || 65 <= x <= 90 || 97 <= x <= 122 || x == 45 || x == 46 || x == 95 || x
            == 126) ==> percent_encode(
            seq![x],
        ) == seq![(x as u32) as char],
        !(48 <= x <= 57 || 65 <= x <= 90 || 97 <= x <= 122 || x == 45 || x == 46 || x == 95 || x
            == 126) ==> percent_encode(
            seq![x],
        ) == seq!['%', "0123456789ABCDEF"@[(x / 16) as int], "0123456789ABCDEF"@[(x % 16) as int]],
    decreases b.len(),
{
    if b.len() > 0 {
        lemma_percent_encode(a, b.drop_last(), x);
        assert((a + b).drop_last() =~= a + b.drop_last());
        assert((a + b).last() == b.last());
    } else {
        assert(a + b =~= a);
    }
    reveal_strlit("0123456789ABCDEF");
    let t = "0123456789ABCDEF"@;
    assert((x >> 4) == x / 16 && (x & 15) == x % 16 && (x >> 4) < 16 && (x & 15) < 16) by (bit_vector);
    let hi = x >> 4;
    let lo = x & 15;
    let one = seq![x];
    assert(one.last() == x);
    assert(one.drop_last() =~= Seq::<u8>::empty());
    assert(percent_encode(one.drop_last()) =~= Seq::<char>::empty());
    if is_unreserved(x) {
        assert(percent_encode(one) =~= seq![(x as u32) as char]);
    } else {
        assert(percent_encode(one) =~= seq!['%', hex_digit(hi), hex_digit(lo)]);
    }
    assert(hex_digit(hi) == t[hi as int]);
    assert(hex_digit(lo) == t[lo as int]);
}

/// `urlencoding::encode`: percent-encodes the UTF-8 bytes of `data`,
/// keeping ASCII alphanumerics and `-`, `_`, `.`, `~`.
#[verifier::external_body]
fn url_encode(data: &str) -> (r: String)
    ensures
        r@ == percent_encode(encode_utf8(data@)),
{
    urlencoding::encode(data).into_owned()
}

/// The permissions the bot asks for.
pub open spec fn scopes_spec() -> Seq<char> {
    "user:read:email+channel:bot+user:read:chat+user:write:chat+user:bot"@
}

/// The URL of the page where the bot's owner grants it access.
pub open spec fn authorize_url_spec(client_id: Seq<char>, redirect_uri: Seq<char>) -> Seq<char> {
    "https://id.twitch.tv/oauth2/authorize?client_id="@ + client_id + "&redirect_uri="@
        + percent_encode(encode_utf8(redirect_uri)) + "&response_type=code&scope="@
        + scopes_spec()
}

/// The URL of the page where the bot's owner grants it access: the client
/// id, the percent-encoded redirect URI, the response type `code` and the
/// scopes.
pub fn authorize_url(config: &AuthConfig) -> (r: String)
    ensures
        r@ == authorize_url_spec(config.client_id@, config.redirect_uri@),
{
    let encoded = url_encode(config.redirect_uri.as_str());
    let mut r = String::new();
    r.append("https://id.twitch.tv/oauth2/authorize?client_id=");
    r.append(config.client_id.as_str());
    r.append("&redirect_uri=");
    r.append(encoded.as_str());
    r.append("&response_type=code&scope=");
    r.append("user:read:email+channel:bot+user:read:chat+user:write:chat+user:bot");
    r
}

/// The authorization URL holds, in order and unchanged: the authorize
/// endpoint with `?client_id=`, the whole configured client id,
/// `&redirect_uri=`, the percent-encoded UTF-8 bytes of the redirect URI,
/// and `&response_type=code&scope=` with the bot's scopes.
pub proof fn lemma_authorize_url_parts(id: Seq<char>, uri: Seq<char>)
    ensures
        ({
            let u = authorize_url_spec(id, uri);
            let p = "https://id.twitch.tv/oauth2/authorize?client_id="@;
            let q = "&redirect_uri="@;
            let enc = percent_encode(encode_utf8(uri));
            let tail = "&response_type=code&scope="@
                + "user:read:email+channel:bot+user:read:chat+user:write:chat+user:bot"@;
            let i1: int = p.len() as int;
            let i2: int = i1 + id.len();
            let i3: int = i2 + q.len();
            let i4: int = i3 + enc.len();
            &&& u.len() == i4 + tail.len()
            &&& u.subrange(0, i1) == p
            &&& u.subrange(i1, i2) == id
            &&& u.subrange(i2, i3) == q
            &&& u.subrange(i3, i4) == enc
            &&& u.subrange(i4, u.len() as int) == tail
        }),
{
    let u = authorize_url_spec(id, uri);
    let p = "https://id.twitch.tv/oauth2/authorize?client_id="@;
    let q = "&redirect_uri="@;
    let enc = percent_encode(encode_utf8(uri));
    let r = "&response_type=code&scope="@;
    let sc = "user:read:email+channel:bot+user:read:chat+user:write:chat+user:bot"@;
    assert(u =~= p + id + q + enc + r + sc);
    let i1: int = p.len() as int;
    let i2: int = i1 + id.len();
    let i3: int = i2 + q.len();
    let i4: int = i3 + enc.len();
    assert(u.subrange(0, i1) =~= p);
    assert(u.subrange(i1, i2) =~= id);
    assert(u.subrange(i2, i3) =~= q);
    assert(u.subrange(i3, i4) =~= enc);
    assert(u.subrange(i4, u.len() as int) =~= r + sc);
}

/// The token endpoint.
pub fn token_endpoint() -> (r: &'static str)
    ensures
        r@ == "https://id.twitch.tv/oauth2/token"@,
{
    "https://id.twitch.tv/oauth2/token"
}

/// A form field: name and value.
pub type FormField = (String, String);

/// The views of a form.
pub open spec fn form_views(f: Seq<FormField>) -> Seq<(Seq<char>, Seq<char>)> {
    f.map_values(|p: FormField| (p.0@, p.1@))
}

fn field(name: &str, value: &str) -> (r: FormField)
    ensures
        r.0@ == name@,
        r.1@ == value@,
{
    (name.to_owned(), value.to_owned())
}

/// The form that trades an authorization code for a token.
pub fn authorization_form(config: &AuthConfig, code: &str) -> (r: Vec<FormField>)
    ensures
        form_views(r@) == seq![
            ("client_id"@, config.client_id@),
            ("client_secret"@, config.client_secret@),
            ("code"@, code@),
            ("grant_type"@, "authorization_code"@),
            ("redirect_uri"@, config.redirect_uri@),
        ],
{
    let mut r: Vec<FormField> = Vec::new();
    r.push(field("client_id", config.client_id.as_str()));
    r.push(field("client_secret", config.client_secret.as_str()));
    r.push(field("code", code));
    r.push(field("grant_type", "authorization_code"));
    r.push(field("redirect_uri", config.redirect_uri.as_str()));
    proof {
        assert(form_views(r@) =~= seq![
            ("client_id"@, config.client_id@),
            ("client_secret"@, config.client_secret@),
            ("code"@, code@),
            ("grant_type"@, "authorization_code"@),
            ("redirect_uri"@, config.redirect_uri@),
        ]);
    }
    r
}

/// The form that trades a refresh token for a new token.
pub fn refresh_form(config: &AuthConfig, token: &Token) -> (r: Vec<FormField>)
    ensures
        form_views(r@) == seq![
            ("grant_type"@, "refresh_token"@),
            ("refresh_token"@, token.refresh_token@),
            ("client_id"@, config.client_id@),
            ("client_secret"@, config.client_secret@),
        ],
{
    let mut r: Vec<FormField> = Vec::new();
    r.push(field("grant_type", "refresh_token"));
    r.push(field("refresh_token", token.refresh_token.as_str()));
    r.push(field("client_id", config.client_id.as_str()));
    r.push(field("client_secret", config.client_secret.as_str()));
    proof {
        assert(form_views(r@) =~= seq![
            ("grant_type"@, "refresh_token"@),
            ("refresh_token"@, token.refresh_token@),
            ("client_id"@, config.client_id@),
            ("client_secret"@, config.client_secret@),
        ]);
    }
    r
}

/// Where the value that follows a marker ends: at the first `&` after
/// `start`, or, when there is none, at the first space after it.
pub open spec fn value_end(line: Seq<char>, start: int) -> Option<int> {
    match find_from(line, seq!['&'], start) {
        Some(e) => Some(e),
        None => find_from(line, seq![' '], start),
    }
}

/// The value that follows the first occurrence of `mark` in `line`:
/// `None` when `mark` does not occur, `Some(None)` when nothing ends the
/// value.
pub open spec fn marked_value(line: Seq<char>, mark: Seq<char>) -> Option<Option<Seq<char>>> {
    match find_spec(line, mark) {
        None => None,
        Some(st) => match value_end(line, st + mark.len()) {
            Some(e) => Some(Some(line.subrange(st + mark.len(), e))),
            None => Some(None),
        },
    }
}

/// The marker of a callback that carries an authorization code.
pub open spec fn code_mark() -> Seq<char> {
    "GET /callback?code="@
}

/// The marker of a callback that reports a refusal.
pub open spec fn error_mark() -> Seq<char> {
    "GET /callback?error="@
}

/// What the first line of a request to the callback server says.
#[derive(Clone, Debug, PartialEq, Eq)]
pub enum CallbackRequest {
    /// The owner granted access; here is the authorization code.
    Code(String),
    /// The owner refused; here is the reason.
    Error(String),
    /// A code or error marker with nothing after it that ends the value.
    Unterminated,
    /// Some other request.
    Other,
}

/// The reading of a request line that `parse_callback_line` promises.
pub open spec fn callback_spec(line: Seq<char>, r: CallbackRequest) -> bool {
    match marked_value(line, code_mark()) {
        Some(Some(v)) => r matches CallbackRequest::Code(c) && c@ == v,
        Some(None) => r is Unterminated,
        None => match marked_value(line, error_mark()) {
            Some(Some(v)) => r matches CallbackRequest::Error(e) && e@ == v,
            Some(None) => r is Unterminated,
            None => r is Other,
        },
    }
}

fn marked_value_of(cs: &Vec<char>, mark: &str) -> (r: Option<Option<String>>)
    ensures
        match marked_value(cs@, mark@) {
            None => r is None,
            Some(None) => r == Some(None::<String>),
            Some(Some(v)) => r matches Some(Some(x)) && x@ == v,
        },
{
    let m = chars_of(mark);
    let n = cs.len();
    match find_in(cs, &m, 0) {
        None => None,
        Some(st) => {
            proof {
                crate::text::lemma_find_from(cs@, m@, 0);
                assert(st + m@.len() <= n);
            }
            let start = st + m.len();
            let amp: Vec<char> = vec!['&'];
            let space: Vec<char> = vec![' '];
            assert(amp@ =~= seq!['&']);
            assert(space@ =~= seq![' ']);
            let end = match find_in(cs, &amp, start) {
                Some(e) => Some(e),
                None => find_in(cs, &space, start),
            };
            match end {
                Some(e) => {
                    proof {
                        if find_from(cs@, seq!['&'], start as int) is Some {
                            crate::text::lemma_find_from(cs@, seq!['&'], start as int);
                        } else {
                            crate::text::lemma_find_from(cs@, seq![' '], start as int);
                        }
                    }
                    Some(Some(string_from_chars(cs, start, e)))
                },
                None => Some(None),
            }
        },
    }
}

/// Reads the first line of a request to the callback server: a code after
/// `GET /callback?code=`, else a reason after `GET /callback?error=`; the
/// value ends at the first `&` after the marker, or else at the first space.
pub fn parse_callback_line(line: &str) -> (r: CallbackRequest)
    ensures
        callback_spec(line@, r),
{
    let cs = chars_of(line);
    match marked_value_of(&cs, "GET /callback?code=") {
        Some(Some(code)) => CallbackRequest::Code(code),
        Some(None) => CallbackRequest::Unterminated,
        None => match marked_value_of(&cs, "GET /callback?error=") {
            Some(Some(e)) => CallbackRequest::Error(e),
            Some(None) => CallbackRequest::Unterminated,
            None => CallbackRequest::Other,
        },
    }
}

/// What the callback server answers the browser, if it answers at all.
pub fn callback_response(req: &CallbackRequest) -> (r: Option<String>)
    ensures
        match req {
            CallbackRequest::Code(_) => r matches Some(t) && t@
                == "HTTP/1.1 200 OK\r\n\r\nYou can close this tab."@,
            CallbackRequest::Error(e) => r matches Some(t) && t@ == "HTTP/1.1 200 OK\r\n\r\nError: ."@
                + e@,
            _ => r is None,
        },
{
    match req {
        CallbackRequest::Code(_) => Some("HTTP/1.1 200 OK\r\n\r\nYou can close this tab.".to_owned()),
        CallbackRequest::Error(e) => {
            let mut t = "HTTP/1.1 200 OK\r\n\r\nError: .".to_owned();
            t.append(e.as_str());
            Some(t)
        },
        _ => None,
    }
}

/// A first occurrence is what the search finds.
proof fn lemma_first_occurrence(line: Seq<char>, pat: Seq<char>, from: int, s: int)
    requires
        0 <= from <= s,
        s + pat.len() <= line.len(),
        line.subrange(s, s + pat.len()) == pat,
        forall|j: int| from <= j < s ==> #[trigger] line.subrange(j, j + pat.len()) != pat,
    ensures
        find_from(line, pat, from) == Some(s),
{
    crate::text::lemma_find_from(line, pat, from);
    assert(crate::text::occurs_at(line, pat, s));
    match find_from(line, pat, from) {
        Some(i) => {
            if i < s {
                assert(line.subrange(i, i + pat.len()) == pat);
            }
        },
        None => {},
    }
}

/// No occurrence at all: the search finds nothing.
proof fn lemma_no_occurrence(line: Seq<char>, pat: Seq<char>, from: int)
    requires
        0 <= from,
        forall|j: int| from <= j && j + pat.len() <= line.len() ==> #[trigger] line.subrange(j, j + pat.len()) != pat,
    ensures
        find_from(line, pat, from) is None,
{
    crate::text::lemma_find_from(line, pat, from);
    match find_from(line, pat, from) {
        Some(i) => {
            assert(line.subrange(i, i + pat.len()) == pat);
        },
        None => {},
    }
}

/// The authorization code comes back whole: when `GET /callback?code=`
/// first occurs at `s`, and the first `&` after it is at `e` (or, with no
/// `&` after it, the first space is at `e`), the request line is read as the
/// code `line[s + 19 .. e]`, however long it is.
pub proof fn lemma_callback_code_in_full(line: Seq<char>, r: CallbackRequest, s: int, e: int)
    requires
        callback_spec(line, r),
        0 <= s,
        s + "GET /callback?code="@.len() <= e < line.len(),
        line.subrange(s, s + "GET /callback?code="@.len()) == "GET /callback?code="@,
        forall|j: int|
            0 <= j < s ==> #[trigger] line.subrange(j, j + "GET /callback?code="@.len())
                != "GET /callback?code="@,
        line[e] == '&' || (line[e] == ' ' && forall|k: int|
            s + "GET /callback?code="@.len() <= k < line.len() ==> line[k] != '&'),
        forall|k: int|
            s + "GET /callback?code="@.len() <= k < e ==> line[k] != '&' && line[k] != line[e],
    ensures
        r matches CallbackRequest::Code(c) && c@ == line.subrange(
            s + "GET /callback?code="@.len(),
            e,
        ),
{
    let m = "GET /callback?code="@;
    let start = s + m.len();
    lemma_first_occurrence(line, m, 0, s);
    assert(line.subrange(e, e + 1) =~= seq![line[e]]);
    if line[e] == '&' {
        assert forall|k: int| start <= k < e implies #[trigger] line.subrange(k, k + 1) != seq!['&'] by {
            assert(line.subrange(k, k + 1)[0] == line[k]);
        }
        lemma_first_occurrence(line, seq!['&'], start, e);
    } else {
        assert forall|k: int| start <= k && k + 1 <= line.len() implies #[trigger] line.subrange(k, k + 1)
            != seq!['&'] by {
            assert(line.subrange(k, k + 1)[0] == line[k]);
        }
        lemma_no_occurrence(line, seq!['&'], start);
        assert forall|k: int| start <= k < e implies #[trigger] line.subrange(k, k + 1) != seq![' '] by {
            assert(line.subrange(k, k + 1)[0] == line[k]);
        }
        lemma_first_occurrence(line, seq![' '], start, e);
    }
}

/// A refusal's reason comes back whole: when the line holds no
/// `GET /callback?code=`, `GET /callback?error=` first occurs at `s`, and
/// the first `&` after it is at `e`, the line is read as the error
/// `line[s + 20 .. e]`.
pub proof fn lemma_callback_error_in_full(line: Seq<char>, r: CallbackRequest, s: int, e: int)
    requires
        callback_spec(line, r),
        forall|j: int|
            0 <= j && j + "GET /callback?code="@.len() <= line.len() ==> #[trigger] line.subrange(
                j,
                j + "GET /callback?code="@.len(),
            ) != "GET /callback?code="@,
        0 <= s,
        s + "GET /callback?error="@.len() <= e < line.len(),
        line.subrange(s, s + "GET /callback?error="@.len()) == "GET /callback?error="@,
        forall|j: int|
            0 <= j < s ==> #[trigger] line.subrange(j, j + "GET /callback?error="@.len())
                != "GET /callback?error="@,
        line[e] == '&',
        forall|k: int| s + "GET /callback?error="@.len() <= k < e ==> line[k] != '&',
    ensures
        r matches CallbackRequest::Error(c) && c@ == line.subrange(
            s + "GET /callback?error="@.len(),
            e,
        ),
{
    let m = "GET /callback?error="@;
    let start = s + m.len();
    lemma_no_occurrence(line, "GET /callback?code="@, 0);
    lemma_first_occurrence(line, m, 0, s);
    assert(line.subrange(e, e + 1) =~= seq![line[e]]);
    assert forall|k: int| start <= k < e implies #[trigger] line.subrange(k, k + 1) != seq!['&'] by {
        assert(line.subrange(k, k + 1)[0] == line[k]);
    }
    lemma_first_occurrence(line, seq!['&'], start, e);
}

/// Where authentication stands.
#[derive(Debug, PartialEq, Eq)]
pub enum AuthState {
    /// Nothing done yet; the saved token is being read.
    Start,
    /// A saved token was found and is being refreshed.
    Refreshing(Token),
    /// The refreshed token is being saved.
    SavingRefreshed(Token),
    /// No saved token; the owner is being asked to authorize the bot.
    Authorizing,
    /// The newly authorized token is being saved.
    SavingAuthorized(Token),
    /// Authentication is over.
    Done,
}

/// What the outside work reports back.
#[derive(Debug, PartialEq, Eq)]
pub enum AuthEvent {
    /// The saved token, if one could be read and parsed.
    Loaded(Option<Token>),
    /// The outcome of refreshing the saved token.
    Refreshed(Result<Token, AuthError>),
    /// Whether the token could be saved.
    Saved(bool),
    /// The outcome of the authorization flow.
    Authorized(Result<Token, AuthError>),
}

/// What authentication asks to be done next.
#[derive(Debug, PartialEq, Eq)]
pub enum AuthAction {
    /// Refresh this token.
    Refresh(Token),
    /// Save this token.
    Save(Token),
    /// Run the authorization flow in the owner's browser.
    Authorize,
    /// Authentication ends with this outcome.
    Finish(Result<Token, AuthError>),
    /// Authentication ends with this token, which could not be saved.
    FinishUnsaved(Token),
}

/// The events that each state waits for.
pub open spec fn auth_expects(s: AuthState, e: AuthEvent) -> bool {
    match s {
        AuthState::Start => e is Loaded,
        AuthState::Refreshing(_) => e is Refreshed,
        AuthState::SavingRefreshed(_) => e is Saved,
        AuthState::Authorizing => e is Authorized,
        AuthState::SavingAuthorized(_) => e is Saved,
        AuthState::Done => false,
    }
}

/// The transition table of authentication: a saved token is refreshed, and
/// kept as it is when refreshing fails; without one the owner authorizes the
/// bot anew. A refreshed token must be saved, a new one need not be.
pub open spec fn auth_next(s: AuthState, e: AuthEvent) -> (AuthState, AuthAction) {
    match (s, e) {
        (AuthState::Start, AuthEvent::Loaded(Some(t))) => (
            AuthState::Refreshing(t),
            AuthAction::Refresh(t),
        ),
        (AuthState::Start, AuthEvent::Loaded(None)) => (AuthState::Authorizing, AuthAction::Authorize),
        (AuthState::Refreshing(_), AuthEvent::Refreshed(Ok(n))) => (
            AuthState::SavingRefreshed(n),
            AuthAction::Save(n),
        ),
        (AuthState::Refreshing(t), AuthEvent::Refreshed(Err(_))) => (
            AuthState::Done,
            AuthAction::Finish(Ok(t)),
        ),
        (AuthState::SavingRefreshed(n), AuthEvent::Saved(true)) => (
            AuthState::Done,
            AuthAction::Finish(Ok(n)),
        ),
        (AuthState::SavingRefreshed(_), AuthEvent::Saved(false)) => (
            AuthState::Done,
            AuthAction::Finish(Err(AuthError::SaveError)),
        ),
        (AuthState::Authorizing, AuthEvent::Authorized(Ok(n))) => (
            AuthState::SavingAuthorized(n),
            AuthAction::Save(n),
        ),
        (AuthState::Authorizing, AuthEvent::Authorized(Err(err))) => (
            AuthState::Done,
            AuthAction::Finish(Err(err)),
        ),
        (AuthState::SavingAuthorized(n), AuthEvent::Saved(true)) => (
            AuthState::Done,
            AuthAction::Finish(Ok(n)),
        ),
        (AuthState::SavingAuthorized(n), AuthEvent::Saved(false)) => (
            AuthState::Done,
            AuthAction::FinishUnsaved(n),
        ),
        (s, _) => (s, AuthAction::Finish(Err(AuthError::RequestError))),
    }
}

/// Whether state `s` waits for event `e`.
pub fn auth_accepts(s: &AuthState, e: &AuthEvent) -> (r: bool)
    ensures
        r == auth_expects(*s, *e),
{
    match (s, e) {
        (AuthState::Start, AuthEvent::Loaded(_)) => true,
        (AuthState::Refreshing(_), AuthEvent::Refreshed(_)) => true,
        (AuthState::SavingRefreshed(_), AuthEvent::Saved(_)) => true,
        (AuthState::Authorizing, AuthEvent::Authorized(_)) => true,
        (AuthState::SavingAuthorized(_), AuthEvent::Saved(_)) => true,
        _ => false,
    }
}

/// Takes one step of authentication: the next state, and what to do.
pub fn auth_step(s: AuthState, e: AuthEvent) -> (r: (AuthState, AuthAction))
    requires
        auth_expects(s, e),
    ensures
        r == auth_next(s, e),
{
    match (s, e) {
        (AuthState::Start, AuthEvent::Loaded(Some(t))) => {
            let c = t.copy();
            (AuthState::Refreshing(t), AuthAction::Refresh(c))
        },
        (AuthState::Start, AuthEvent::Loaded(None)) => (AuthState::Authorizing, AuthAction::Authorize),
        (AuthState::Refreshing(_), AuthEvent::Refreshed(Ok(n))) => {
            let c = n.copy();
            (AuthState::SavingRefreshed(n), AuthAction::Save(c))
        },
        (AuthState::Refreshing(t), AuthEvent::Refreshed(Err(_))) => (
            AuthState::Done,
            AuthAction::Finish(Ok(t)),
        ),
        (AuthState::SavingRefreshed(n), AuthEvent::Saved(true)) => (
            AuthState::Done,
            AuthAction::Finish(Ok(n)),
        ),
        (AuthState::SavingRefreshed(_), AuthEvent::Saved(false)) => (
            AuthState::Done,
            AuthAction::Finish(Err(AuthError::SaveError)),
        ),
        (AuthState::Authorizing, AuthEvent::Authorized(Ok(n))) => {
            let c = n.copy();
            (AuthState::SavingAuthorized(n), AuthAction::Save(c))
        },
        (AuthState::Authorizing, AuthEvent::Authorized(Err(err))) => (
            AuthState::Done,
            AuthAction::Finish(Err(err)),
        ),
        (AuthState::SavingAuthorized(n), AuthEvent::Saved(true)) => (
            AuthState::Done,
            AuthAction::Finish(Ok(n)),
        ),
        (AuthState::SavingAuthorized(n), AuthEvent::Saved(false)) => (
            AuthState::Done,
            AuthAction::FinishUnsaved(n),
        ),
        (s, _) => (s, AuthAction::Finish(Err(AuthError::RequestError))),
    }
}

/// The state reached and the actions asked for when the events `evs` come
/// in one after the other from state `s`.
pub open spec fn auth_run(s: AuthState, evs: Seq<AuthEvent>) -> (AuthState, Seq<AuthAction>)
    decreases evs.len(),
{
    if evs.len() == 0 {
        (s, seq![])
    } else {
        let (s1, a) = auth_next(s, evs[0]);
        let (s2, rest) = auth_run(s1, evs.drop_first());
        (s2, seq![a] + rest)
    }
}

/// Each event of `evs` is one that the state it reaches waits for.
pub open spec fn auth_valid_run(s: AuthState, evs: Seq<AuthEvent>) -> bool
    decreases evs.len(),
{
    evs.len() == 0 || (auth_expects(s, evs[0]) && auth_valid_run(
        auth_next(s, evs[0]).0,
        evs.drop_first(),
    ))
}

/// The states that follow the loading of a saved token.
pub open spec fn on_saved_token(s: AuthState) -> bool {
    s is Refreshing || s is SavingRefreshed || s is Done
}

/// How many outside results a state can still wait for.
pub open spec fn steps_left(s: AuthState) -> nat {
    match s {
        AuthState::Start => 3,
        AuthState::Refreshing(_) => 2,
        AuthState::Authorizing => 2,
        AuthState::SavingRefreshed(_) => 1,
        AuthState::SavingAuthorized(_) => 1,
        AuthState::Done => 0,
    }
}

/// Once a saved token has been loaded, the owner is never asked to authorize
/// the bot, and authentication ends in an error only when a refreshed token
/// could not be saved.
pub proof fn lemma_saved_token_never_reauthorizes(s: AuthState, evs: Seq<AuthEvent>)
    requires
        on_saved_token(s),
        auth_valid_run(s, evs),
    ensures
        forall|i: int|
            0 <= i < auth_run(s, evs).1.len() ==> !(#[trigger] auth_run(s, evs).1[i] is Authorize),
        forall|i: int|
            0 <= i < auth_run(s, evs).1.len() ==> (#[trigger] auth_run(s, evs).1[i] matches AuthAction::Finish(
                Err(e),
            ) ==> e == AuthError::SaveError),
        forall|i: int|
            0 <= i < auth_run(s, evs).1.len() ==> !(#[trigger] auth_run(s, evs).1[i] is FinishUnsaved),
    decreases evs.len(),
{
    if evs.len() > 0 {
        let (s1, a) = auth_next(s, evs[0]);
        lemma_saved_token_never_reauthorizes(s1, evs.drop_first());
        let rest = auth_run(s1, evs.drop_first()).1;
        assert forall|i: int| 0 < i < auth_run(s, evs).1.len() implies auth_run(s, evs).1[i] == rest[i
            - 1] by {}
    }
}

/// Authentication waits for at most three outside results, two once a saved
/// token was loaded, and waits for nothing once it is over.
pub proof fn lemma_auth_bounded(s: AuthState, evs: Seq<AuthEvent>)
    requires
        auth_valid_run(s, evs),
    ensures
        evs.len() <= steps_left(s),
    decreases evs.len(),
{
    if evs.len() > 0 {
        lemma_auth_bounded(auth_next(s, evs[0]).0, evs.drop_first());
    }
}

/// A run that reaches the end asks for exactly one finishing action, and it
/// is the last one.
pub proof fn lemma_auth_finishes_once(s: AuthState, evs: Seq<AuthEvent>)
    requires
        !(s is Done),
        auth_valid_run(s, evs),
        auth_run(s, evs).0 is Done,
    ensures
        evs.len() > 0,
        auth_run(s, evs).1.last() is Finish || auth_run(s, evs).1.last() is FinishUnsaved,
        forall|i: int|
            0 <= i < auth_run(s, evs).1.len() - 1 ==> !(#[trigger] auth_run(s, evs).1[i] is Finish)
                && !(auth_run(s, evs).1[i] is FinishUnsaved),
    decreases evs.len(),
{
    let (s1, a) = auth_next(s, evs[0]);
    let rest = auth_run(s1, evs.drop_first()).1;
    assert(auth_valid_run(s1, evs.drop_first()));
    if s1 is Done {
        assert(evs.drop_first().len() == 0);
    } else {
        lemma_auth_finishes_once(s1, evs.drop_first());
        assert forall|i: int| 0 < i < auth_run(s, evs).1.len() implies auth_run(s, evs).1[i] == rest[i
            - 1] by {}
    }
}

/// From a fresh start, how authentication ends is fixed by what the outside
/// work reports:
/// - no saved token, the owner authorizes the bot with token `n`: the
///   token is saved and authentication succeeds with `n`, saved or not;
/// - no saved token, the authorization fails with `e`: authentication fails
///   with `e`;
/// - a saved token `t` that cannot be refreshed: authentication succeeds
///   with `t`;
/// - a saved token refreshed into `n`: `n` is saved, and authentication
///   succeeds with `n` when saving succeeded, else fails with `SaveError`.
pub proof fn lemma_auth_outcomes(t: Token, n: Token, e: AuthError, saved: bool)
    ensures
        ({
            let evs = seq![AuthEvent::Loaded(None), AuthEvent::Authorized(Ok(n)), AuthEvent::Saved(saved)];
            &&& auth_valid_run(AuthState::Start, evs)
            &&& auth_run(AuthState::Start, evs) == (
                AuthState::Done,
                seq![
                    AuthAction::Authorize,
                    AuthAction::Save(n),
                    if saved {
                        AuthAction::Finish(Ok(n))
                    } else {
                        AuthAction::FinishUnsaved(n)
                    },
                ],
            )
        }),
        ({
            let evs = seq![AuthEvent::Loaded(None), AuthEvent::Authorized(Err(e))];
            &&& auth_valid_run(AuthState::Start, evs)
            &&& auth_run(AuthState::Start, evs) == (
                AuthState::Done,
                seq![AuthAction::Authorize, AuthAction::Finish(Err(e))],
            )
        }),
        ({
            let evs = seq![AuthEvent::Loaded(Some(t)), AuthEvent::Refreshed(Err(e))];
            &&& auth_valid_run(AuthState::Start, evs)
            &&& auth_run(AuthState::Start, evs) == (
                AuthState::Done,
                seq![AuthAction::Refresh(t), AuthAction::Finish(Ok(t))],
            )
        }),
        ({
            let evs = seq![AuthEvent::Loaded(Some(t)), AuthEvent::Refreshed(Ok(n)), AuthEvent::Saved(saved)];
            &&& auth_valid_run(AuthState::Start, evs)
            &&& auth_run(AuthState::Start, evs) == (
                AuthState::Done,
                seq![
                    AuthAction::Refresh(t),
                    AuthAction::Save(n),
                    if saved {
                        AuthAction::Finish(Ok(n))
                    } else {
                        AuthAction::Finish(Err(AuthError::SaveError))
                    },
                ],
            )
        }),
{
    reveal_with_fuel(auth_run, 4);
    reveal_with_fuel(auth_valid_run, 4);
    let a = seq![AuthEvent::Loaded(None), AuthEvent::Authorized(Ok(n)), AuthEvent::Saved(saved)];
    assert(a.drop_first() =~= seq![AuthEvent::Authorized(Ok(n)), AuthEvent::Saved(saved)]);
    assert(a.drop_first().drop_first() =~= seq![AuthEvent::Saved(saved)]);
    assert(a.drop_first().drop_first().drop_first() =~= Seq::<AuthEvent>::empty());
    let b = seq![AuthEvent::Loaded(None), AuthEvent::Authorized(Err(e))];
    assert(b.drop_first() =~= seq![AuthEvent::Authorized(Err(e))]);
    assert(b.drop_first().drop_first() =~= Seq::<AuthEvent>::empty());
    let c = seq![AuthEvent::Loaded(Some(t)), AuthEvent::Refreshed(Err(e))];
    assert(c.drop_first() =~= seq![AuthEvent::Refreshed(Err(e))]);
    assert(c.drop_first().drop_first() =~= Seq::<AuthEvent>::empty());
    let d = seq![AuthEvent::Loaded(Some(t)), AuthEvent::Refreshed(Ok(n)), AuthEvent::Saved(saved)];
    assert(d.drop_first() =~= seq![AuthEvent::Refreshed(Ok(n)), AuthEvent::Saved(saved)]);
    assert(d.drop_first().drop_first() =~= seq![AuthEvent::Saved(saved)]);
    assert(d.drop_first().drop_first().drop_first() =~= Seq::<AuthEvent>::empty());
    assert(auth_run(AuthState::Start, a).1 =~= seq![
        AuthAction::Authorize,
        AuthAction::Save(n),
        if saved {
            AuthAction::Finish(Ok(n))
        } else {
            AuthAction::FinishUnsaved(n)
        },
    ]);
    assert(auth_run(AuthState::Start, b).1 =~= seq![AuthAction::Authorize, AuthAction::Finish(Err(e))]);
    assert(auth_run(AuthState::Start, c).1 =~= seq![AuthAction::Refresh(t), AuthAction::Finish(Ok(t))]);
    assert(auth_run(AuthState::Start, d).1 =~= seq![
        AuthAction::Refresh(t),
        AuthAction::Save(n),
        if saved {
            AuthAction::Finish(Ok(n))
        } else {
            AuthAction::Finish(Err(AuthError::SaveError))
        },
    ]);
}

/// Once the owner has authorized the bot, authentication does not end in an
/// error: the new token is kept whether or not it could be saved.
pub proof fn lemma_authorized_never_fails(evs: Seq<AuthEvent>, i: int)
    requires
        auth_valid_run(AuthState::Start, evs),
        0 <= i < evs.len(),
        evs[i] matches AuthEvent::Authorized(Ok(_)),
    ensures
        forall|j: int|
            0 <= j < auth_run(AuthState::Start, evs).1.len() ==> !(#[trigger] auth_run(
                AuthState::Start,
                evs,
            ).1[j] matches AuthAction::Finish(Err(_))),
{
    lemma_auth_bounded(AuthState::Start, evs);
    let e1 = evs.drop_first();
    let (s1, a0) = auth_next(AuthState::Start, evs[0]);
    assert(auth_valid_run(s1, e1));
    if s1 is Refreshing {
        // a saved token was loaded: no authorization ever follows
        if e1.len() > 0 {
            let (s2, _) = auth_next(s1, e1[0]);
            assert(auth_valid_run(s2, e1.drop_first()));
            if e1.len() > 1 {
                assert(auth_valid_run(auth_next(s2, e1.drop_first()[0]).0, e1.drop_first().drop_first()));
                assert(e1.drop_first().drop_first().len() == 0);
                assert(evs[2] == e1.drop_first()[0]);
            }
            assert(evs[1] == e1[0]);
        }
        assert(false);
    }
    assert(s1 is Authorizing);
    assert(e1.len() > 0);
    assert(evs[1] == e1[0]);
    let n = e1[0]->Authorized_0->Ok_0;
    if e1[0] matches AuthEvent::Authorized(Err(_)) {
        let (s2, _) = auth_next(s1, e1[0]);
        assert(s2 is Done);
        assert(auth_valid_run(s2, e1.drop_first()));
        assert(e1.drop_first().len() == 0);
        assert(false);
    }
    let e2 = e1.drop_first();
    let (s2, a1) = auth_next(s1, e1[0]);
    assert(auth_valid_run(s2, e2));
    let r2 = auth_run(s2, e2).1;
    if e2.len() > 0 {
        let (s3, a2) = auth_next(s2, e2[0]);
        assert(auth_valid_run(s3, e2.drop_first()));
        assert(e2.drop_first().len() == 0);
        assert(auth_run(s3, e2.drop_first()).1 =~= Seq::<AuthAction>::empty());
        assert(r2 =~= seq![a2] + auth_run(s3, e2.drop_first()).1);
        assert(r2 =~= seq![a2]);
    } else {
        assert(r2 =~= Seq::<AuthAction>::empty());
    }
    let r1 = auth_run(s1, e1).1;
    assert(r1 =~= seq![a1] + r2);
    assert(auth_run(AuthState::Start, evs).1 =~= seq![a0] + r1);
}

} // verus!
