//! The panel of the administrator: who may use it, and how its requests are
//! answered.

use vstd::prelude::*;

use crate::db::law_session_name;
use crate::db::session_name;
use crate::numeral::law_i32_round_trip;
use crate::numeral::signed_decimal;
use crate::numeral::signed_decimal_text;
use crate::storage::DiskSpace;
use crate::telegram::config::Config;
use crate::telegram::config::StoredSettings;
use crate::telegram::config::TelegramConfig;
use crate::telegram::config::TelegramEnv;
use crate::telegram::config::stored_config;
use crate::telegram::manager::TelegramStatus;
use crate::text::after_prefix;
use crate::text::has_prefix;
use crate::text::is_blank;
use crate::text::is_space;
use crate::text::law_pieces;
use crate::text::law_prefix;
use crate::text::lemma_pieces_not_empty;
use crate::text::optional_text;
use crate::text::pieces_of;
use crate::text::push_text;
use crate::text::split;
use crate::text::strip_prefix;
use crate::text::texts;
use crate::text::trim;
use crate::text::trimmed;
use crate::text::trimmed_start;

verus! {

// ---------------------------------------------------------------------------
// Replies
// ---------------------------------------------------------------------------

pub const OK: u16 = 200;

pub const BAD_REQUEST: u16 = 400;

pub const UNAUTHORIZED: u16 = 401;

pub const INTERNAL_SERVER_ERROR: u16 = 500;

/// What a reply says.
#[derive(Debug, Clone, PartialEq)]
pub enum ReplyBody {
    /// The request was carried out.
    Success,
    /// The request was not carried out, for the reason given.
    Error { message: String },
    /// So many files were removed.
    Pruned { count: usize },
}

/// A reply to a request: its status, what it says, and the cookie that it sets.
#[derive(Debug, Clone, PartialEq)]
pub struct Reply {
    pub status: u16,
    pub body: ReplyBody,
    pub cookie: Option<String>,
}

impl Reply {
    /// `self` says that the request was carried out, and sets `cookie`.
    pub open spec fn succeeds(&self, cookie: Option<Seq<char>>) -> bool {
        &&& self.status == OK
        &&& self.body is Success
        &&& optional_text(self.cookie) == cookie
    }

    /// `self` has the given status and gives the reason `message`.
    pub open spec fn fails(&self, status: u16, message: Seq<char>) -> bool {
        &&& self.status == status
        &&& self.body matches ReplyBody::Error { message: m }
        &&& m@ == message
        &&& self.cookie is None
    }

    /// The reply to a request that was carried out.
    pub fn success() -> (r: Reply)
        ensures
            r.succeeds(None),
    {
        Reply { status: OK, body: ReplyBody::Success, cookie: None }
    }

    /// The reply to a request that was not carried out.
    pub fn error(status: u16, message: String) -> (r: Reply)
        ensures
            r.fails(status, message@),
    {
        Reply { status, body: ReplyBody::Error { message }, cookie: None }
    }

    /// The reply to a request that fails with `status` where its outcome is an
    /// error.
    pub fn from_outcome(status: u16, outcome: Result<(), String>) -> (r: Reply)
        ensures
            match outcome {
                Ok(()) => r.succeeds(None),
                Err(message) => r.fails(status, message@),
            },
    {
        match outcome {
            Ok(()) => Reply::success(),
            Err(message) => Reply::error(status, message),
        }
    }
}

// ---------------------------------------------------------------------------
// Sessions
// ---------------------------------------------------------------------------

/// The sessions among the pieces of a header.
pub open spec fn sessions_in(pieces: Seq<Seq<char>>) -> Seq<Seq<char>>
    decreases pieces.len(),
{
    if pieces.len() == 0 {
        Seq::empty()
    } else {
        let before = sessions_in(pieces.drop_last());
        match after_prefix(trimmed(pieces.last()), "rsdlp_session="@) {
            Some(token) => before.push(token),
            None => before,
        }
    }
}

/// The sessions that a cookie header names.
pub open spec fn cookie_sessions(header: Seq<char>) -> Seq<Seq<char>> {
    sessions_in(pieces_of(header, ';'))
}

/// Lists the sessions that a cookie header names.
pub fn session_tokens(header: &str) -> (r: Vec<String>)
    ensures
        texts(r@) == cookie_sessions(header@),
{
    let pieces = split(header, ';');
    let ghost all = texts(pieces@);
    let mut out: Vec<String> = Vec::new();
    let mut i: usize = 0;
    assert(texts(out@) =~= sessions_in(all.take(0)));
    while i < pieces.len()
        invariant
            i <= pieces@.len(),
            all == texts(pieces@),
            texts(out@) == sessions_in(all.take(i as int)),
        decreases pieces@.len() - i,
    {
        let ghost longer = all.take(i + 1);
        assert(longer.drop_last() =~= all.take(i as int));
        assert(longer.last() == pieces@[i as int]@);
        if let Some(token) = strip_prefix(trim(pieces[i].as_str()), "rsdlp_session=") {
            push_text(&mut out, token);
        }
        i += 1;
    }
    assert(all.take(i as int) =~= all);
    out
}

/// A request of the administrator.
#[derive(Debug, Clone, Copy, PartialEq, Eq)]
pub struct AdminAuth;

impl AdminAuth {
    /// Lets a request pass where one of the sessions that it names was found.
    pub fn from_lookups(found: &Vec<bool>) -> (r: Result<AdminAuth, Reply>)
        ensures
            match r {
                Ok(_) => found@.contains(true),
                Err(reply) => !found@.contains(true) && reply.fails(UNAUTHORIZED, "Unauthorized"@),
            },
    {
        let mut i: usize = 0;
        while i < found.len()
            invariant
                i <= found@.len(),
                forall|k: int| 0 <= k < i ==> !found@[k],
            decreases found@.len() - i,
        {
            if found[i] {
                assert(found@[i as int]);
                return Ok(AdminAuth);
            }
            i += 1;
        }
        Err(Reply::error(UNAUTHORIZED, String::from_str("Unauthorized")))
    }
}

/// The cookie that opens a session.
pub open spec fn session_cookie(token: Seq<char>) -> Seq<char> {
    "rsdlp_session="@ + token + "; HttpOnly; Path=/; SameSite=Lax; Max-Age=2592000"@
}

/// The cookie that ends a session.
pub open spec fn ending_cookie() -> Seq<char> {
    "rsdlp_session=; HttpOnly; Path=/; Max-Age=0"@
}

/// A request to log in.
#[derive(Debug, Clone)]
pub struct LoginReq {
    pub password: String,
}

/// Goes on with a login once the password was tested: `None` asks for a session.
pub fn admin_login(verified: Result<bool, String>) -> (r: Option<Reply>)
    ensures
        match r {
            None => verified == Ok::<bool, String>(true),
            Some(reply) => verified != Ok::<bool, String>(true) && reply.fails(
                UNAUTHORIZED,
                "Invalid admin password"@,
            ),
        },
{
    match verified {
        Ok(true) => None,
        _ => Some(Reply::error(UNAUTHORIZED, String::from_str("Invalid admin password"))),
    }
}

/// Answers a login once a session was opened, or could not be.
pub fn after_session(session: Result<String, String>) -> (r: Reply)
    ensures
        match session {
            Ok(token) => r.succeeds(Some(session_cookie(token@))),
            Err(message) => r.fails(INTERNAL_SERVER_ERROR, message@),
        },
{
    match session {
        Ok(token) => {
            let mut cookie = String::from_str("rsdlp_session=");
            cookie.append(token.as_str());
            cookie.append("; HttpOnly; Path=/; SameSite=Lax; Max-Age=2592000");
            Reply { status: OK, body: ReplyBody::Success, cookie: Some(cookie) }
        },
        Err(message) => Reply::error(INTERNAL_SERVER_ERROR, message),
    }
}

/// Answers a logout.
pub fn admin_logout() -> (r: Reply)
    ensures
        r.succeeds(Some(ending_cookie())),
{
    Reply {
        status: OK,
        body: ReplyBody::Success,
        cookie: Some(String::from_str("rsdlp_session=; HttpOnly; Path=/; Max-Age=0")),
    }
}

// ---------------------------------------------------------------------------
// Requests
// ---------------------------------------------------------------------------

/// What the panel shows.
#[derive(Debug, Clone)]
pub struct AdminStatusResp {
    pub storage: Option<DiskSpace>,
    pub telegram: TelegramStatus,
}

/// A request to change the password.
#[derive(Debug, Clone)]
pub struct ChangePasswordReq {
    pub old_password: String,
    pub new_password: String,
}

impl ChangePasswordReq {
    /// Tests the request once the old password was tested: `None` asks for the new
    /// one to be stored.
    pub fn refusal(&self, old_is_valid: bool) -> (r: Option<Reply>)
        ensures
            match r {
                None => old_is_valid && trimmed(self.new_password@).len() > 0,
                Some(reply) => if !old_is_valid {
                    reply.fails(BAD_REQUEST, "Incorrect current password"@)
                } else {
                    &&& trimmed(self.new_password@).len() == 0
                    &&& reply.fails(BAD_REQUEST, "New password cannot be empty"@)
                },
            },
    {
        if !old_is_valid {
            return Some(
                Reply::error(BAD_REQUEST, String::from_str("Incorrect current password")),
            );
        }
        if is_blank(self.new_password.as_str()) {
            return Some(
                Reply::error(BAD_REQUEST, String::from_str("New password cannot be empty")),
            );
        }
        None
    }
}

/// Answers a change of the password once the new one was stored, or could not be.
pub fn after_password(outcome: Result<(), String>) -> (r: Reply)
    ensures
        match outcome {
            Ok(()) => r.succeeds(None),
            Err(message) => r.fails(INTERNAL_SERVER_ERROR, message@),
        },
{
    Reply::from_outcome(INTERNAL_SERVER_ERROR, outcome)
}

/// Answers a request to remove what is left of old downloads.
pub fn after_prune(count: usize) -> (r: Reply)
    ensures
        r.status == OK,
        r.body == (ReplyBody::Pruned { count }),
        r.cookie is None,
{
    Reply { status: OK, body: ReplyBody::Pruned { count }, cookie: None }
}

/// The credentials of the bot, as the panel shows them.
#[derive(Debug, Clone)]
pub struct TgConfigResp {
    pub api_id: Option<i32>,
    pub api_hash: Option<String>,
    pub bot_token: Option<String>,
}

impl TgConfigResp {
    /// Shows the credentials of a configuration, where there is one.
    pub fn of(config: Option<&TelegramConfig>) -> (r: TgConfigResp)
        ensures
            match config {
                Some(c) => {
                    &&& r.api_id == Some(c.api_id)
                    &&& optional_text(r.api_hash) == Some(c.api_hash@)
                    &&& optional_text(r.bot_token) == Some(c.bot_token@)
                },
                None => r.api_id is None && r.api_hash is None && r.bot_token is None,
            },
    {
        match config {
            Some(c) => TgConfigResp {
                api_id: Some(c.api_id),
                api_hash: Some(c.api_hash.clone()),
                bot_token: Some(c.bot_token.clone()),
            },
            None => TgConfigResp { api_id: None, api_hash: None, bot_token: None },
        }
    }
}

/// A request to set the credentials of the bot.
#[derive(Debug, Clone)]
pub struct TgConfigReq {
    pub api_id: i32,
    pub api_hash: String,
    pub bot_token: String,
}

/// A setting that is to be stored.
pub struct Setting {
    pub key: String,
    pub value: String,
}

/// The content of some settings.
pub open spec fn settings(list: Seq<Setting>) -> Seq<(Seq<char>, Seq<char>)> {
    list.map_values(|s: Setting| (s.key@, s.value@))
}

impl TgConfigReq {
    /// Every credential is given.
    pub open spec fn is_complete(&self) -> bool {
        &&& self.api_id > 0
        &&& trimmed(self.api_hash@).len() > 0
        &&& trimmed(self.bot_token@).len() > 0
    }

    /// The settings that hold the credentials.
    pub open spec fn stored(&self) -> Seq<(Seq<char>, Seq<char>)> {
        seq![
            ("tg_api_id"@, signed_decimal(self.api_id as int)),
            ("tg_api_hash"@, self.api_hash@),
            ("tg_bot_token"@, self.bot_token@),
        ]
    }

    /// Lists the settings that are to be stored, in this order, or refuses the
    /// request where a credential is missing.
    pub fn to_settings(&self) -> (r: Result<Vec<Setting>, Reply>)
        ensures
            match r {
                Ok(list) => self.is_complete() && settings(list@) == self.stored(),
                Err(reply) => !self.is_complete() && reply.fails(
                    BAD_REQUEST,
                    "API ID, API Hash, and Bot Token are required"@,
                ),
            },
    {
        if self.api_id <= 0 || is_blank(self.api_hash.as_str()) || is_blank(
            self.bot_token.as_str(),
        ) {
            return Err(
                Reply::error(
                    BAD_REQUEST,
                    String::from_str("API ID, API Hash, and Bot Token are required"),
                ),
            );
        }
        let mut list: Vec<Setting> = Vec::new();
        list.push(
            Setting {
                key: String::from_str("tg_api_id"),
                value: signed_decimal_text(self.api_id),
            },
        );
        list.push(Setting { key: String::from_str("tg_api_hash"), value: self.api_hash.clone() });
        list.push(
            Setting { key: String::from_str("tg_bot_token"), value: self.bot_token.clone() },
        );
        assert(settings(list@) =~= self.stored());
        Ok(list)
    }
}

/// Answers a request to set the credentials once they were stored, or could not be.
/// That the bot could not be started with them is no failure.
pub fn after_settings(outcome: Result<(), String>) -> (r: Reply)
    ensures
        match outcome {
            Ok(()) => r.succeeds(None),
            Err(message) => r.fails(INTERNAL_SERVER_ERROR, message@),
        },
{
    Reply::from_outcome(INTERNAL_SERVER_ERROR, outcome)
}

/// Answers a request to start the bot.
pub fn after_start(outcome: Result<(), String>) -> (r: Reply)
    ensures
        match outcome {
            Ok(()) => r.succeeds(None),
            Err(message) => r.fails(BAD_REQUEST, message@),
        },
{
    Reply::from_outcome(BAD_REQUEST, outcome)
}

/// Answers a request to stop the bot.
pub fn after_stop() -> (r: Reply)
    ensures
        r.succeeds(None),
{
    Reply::success()
}

/// Answers a request to forget the bot.
pub fn after_disconnect(outcome: Result<(), String>) -> (r: Reply)
    ensures
        match outcome {
            Ok(()) => r.succeeds(None),
            Err(message) => r.fails(INTERNAL_SERVER_ERROR, message@),
        },
{
    Reply::from_outcome(INTERNAL_SERVER_ERROR, outcome)
}

// ---------------------------------------------------------------------------
// Laws
// ---------------------------------------------------------------------------

/// `token` can stand in a cookie: it holds neither a semicolon nor white space.
pub open spec fn is_token(token: Seq<char>) -> bool {
    forall|i: int| 0 <= i < token.len() ==> token[i] != ';' && !is_space(#[trigger] token[i])
}

proof fn lemma_pieces_append(a: Seq<char>, b: Seq<char>)
    ensures
        pieces_of(a + seq![';'] + b, ';') == pieces_of(a, ';') + pieces_of(b, ';'),
    decreases b.len(),
{
    let s = a + seq![';'] + b;
    lemma_pieces_not_empty(b, ';');
    if b.len() == 0 {
        assert(s.drop_last() =~= a);
        assert(pieces_of(a, ';').push(Seq::empty()) =~= pieces_of(a, ';') + pieces_of(b, ';'));
    } else {
        lemma_pieces_not_empty(b.drop_last(), ';');
        assert(s.drop_last() =~= a + seq![';'] + b.drop_last());
        lemma_pieces_append(a, b.drop_last());
        let x = pieces_of(a, ';');
        let y = pieces_of(b.drop_last(), ';');
        assert((x + y).last() == y.last());
        if b.last() == ';' {
            assert((x + y).push(Seq::empty()) =~= x + y.push(Seq::empty()));
        } else {
            let longer = y.last().push(b.last());
            assert((x + y).drop_last().push(longer) =~= x + y.drop_last().push(longer));
        }
    }
}

proof fn lemma_one_piece(s: Seq<char>)
    requires
        forall|i: int| 0 <= i < s.len() ==> #[trigger] s[i] != ';',
    ensures
        pieces_of(s, ';') == seq![s],
    decreases s.len(),
{
    if s.len() > 0 {
        lemma_one_piece(s.drop_last());
        assert(s.drop_last().push(s.last()) =~= s);
        assert(pieces_of(s, ';') =~= seq![s]);
    } else {
        assert(s =~= Seq::empty());
    }
}

proof fn lemma_sessions_append(a: Seq<Seq<char>>, b: Seq<Seq<char>>)
    ensures
        sessions_in(a + b) == sessions_in(a) + sessions_in(b),
    decreases b.len(),
{
    if b.len() == 0 {
        assert(a + b =~= a);
        assert(sessions_in(a) + sessions_in(b) =~= sessions_in(a));
    } else {
        assert((a + b).drop_last() =~= a + b.drop_last());
        lemma_sessions_append(a, b.drop_last());
        assert(sessions_in(a + b) =~= sessions_in(a) + sessions_in(b));
    }
}

/// A header that is one cookie with a session names that session, with or without a
/// space before it.
pub proof fn law_session_read_back(token: Seq<char>)
    requires
        is_token(token),
    ensures
        cookie_sessions("rsdlp_session="@ + token) == seq![token],
        cookie_sessions(" "@ + "rsdlp_session="@ + token) == seq![token],
{
    reveal_strlit("rsdlp_session=");
    reveal_strlit(" ");
    let p = "rsdlp_session="@;
    let cookie = p + token;
    let spaced = " "@ + p + token;
    assert forall|i: int| 0 <= i < cookie.len() implies #[trigger] cookie[i] != ';' by {
        if i >= p.len() {
            assert(cookie[i] == token[i - p.len()]);
        }
    }
    assert forall|i: int| 0 <= i < spaced.len() implies #[trigger] spaced[i] != ';' by {
        if i > 0 {
            assert(spaced[i] == cookie[i - 1]);
        }
    }
    lemma_one_piece(cookie);
    lemma_one_piece(spaced);
    assert(cookie[0] == 'r');
    assert(cookie.last() == if token.len() > 0 {
        token[token.len() - 1]
    } else {
        '='
    });
    assert(spaced.drop_first() =~= cookie);
    assert(trimmed_start(spaced) == trimmed_start(cookie));
    assert(cookie.take(p.len() as int) =~= p);
    assert(cookie.skip(p.len() as int) =~= token);
    assert(trimmed(cookie) == cookie);
    assert(trimmed(spaced) == cookie);
    assert(sessions_in(Seq::<Seq<char>>::empty()) =~= Seq::empty());
    assert(seq![cookie].drop_last() =~= Seq::empty());
    assert(seq![spaced].drop_last() =~= Seq::empty());
    assert(sessions_in(seq![cookie]) =~= seq![token]);
    assert(sessions_in(seq![spaced]) =~= seq![token]);
}

/// A session is found among other cookies: the sessions that a header names are
/// those of its parts.
pub proof fn law_cookies_are_independent(before: Seq<char>, after: Seq<char>)
    ensures
        cookie_sessions(before + seq![';'] + after) == cookie_sessions(before) + cookie_sessions(
            after,
        ),
{
    lemma_pieces_append(before, after);
    lemma_sessions_append(pieces_of(before, ';'), pieces_of(after, ';'));
}

/// The session that a login opens is the one that the browser names afterwards: the
/// cookie that is set holds, before its first semicolon, what names the session.
pub proof fn law_login_is_remembered(secs: u64, nanos: u32, pid: u32)
    ensures
        is_token(session_name(secs, nanos, pid)),
        pieces_of(session_cookie(session_name(secs, nanos, pid)), ';')[0] == "rsdlp_session="@
            + session_name(secs, nanos, pid),
        cookie_sessions("rsdlp_session="@ + session_name(secs, nanos, pid)) == seq![
            session_name(secs, nanos, pid),
        ],
{
    reveal_strlit("rsdlp_session=");
    let token = session_name(secs, nanos, pid);
    assert forall|i: int| 0 <= i < token.len() implies token[i] != ';' && !is_space(
        #[trigger] token[i],
    ) by {
        law_session_name(secs, nanos, pid, i);
    }
    law_session_read_back(token);
    reveal_strlit("; HttpOnly; Path=/; SameSite=Lax; Max-Age=2592000");
    let attributes = "; HttpOnly; Path=/; SameSite=Lax; Max-Age=2592000"@;
    let p = "rsdlp_session="@;
    let cookie = p + token;
    assert(session_cookie(token) =~= cookie + seq![';'] + attributes.drop_first());
    lemma_pieces_append(cookie, attributes.drop_first());
    assert forall|i: int| 0 <= i < cookie.len() implies #[trigger] cookie[i] != ';' by {
        if i >= p.len() {
            assert(cookie[i] == token[i - p.len()]);
        }
    }
    lemma_one_piece(cookie);
}

/// Logging out puts the empty name in place of that of the session.
pub proof fn law_logout_clears()
    ensures
        pieces_of(ending_cookie(), ';')[0] == "rsdlp_session="@,
{
    reveal_strlit("rsdlp_session=");
    reveal_strlit("rsdlp_session=; HttpOnly; Path=/; Max-Age=0");
    let p = "rsdlp_session="@;
    let rest = ending_cookie().skip(p.len() as int + 1);
    assert(ending_cookie() =~= p + seq![';'] + rest);
    lemma_pieces_append(p, rest);
    lemma_one_piece(p);
}

/// The credentials that were stored are the ones that the bot is started with,
/// whatever the environment holds.
pub proof fn law_stored_credentials(
    req: TgConfigReq,
    stored: StoredSettings,
    env: TelegramEnv,
    session_file: Seq<char>,
)
    requires
        req.is_complete(),
        optional_text(stored.api_id) == Some(req.stored()[0].1),
        optional_text(stored.api_hash) == Some(req.stored()[1].1),
        optional_text(stored.bot_token) == Some(req.stored()[2].1),
    ensures
        stored_config(stored, env, session_file) == Some(
            Config {
                api_id: req.api_id as int,
                api_hash: req.api_hash@,
                bot_token: req.bot_token@,
                session_file,
            },
        ),
{
    law_i32_round_trip(req.api_id);
}

/// What a reply says of a request.
pub proof fn law_replies(reply: Reply, status: u16, message: Seq<char>, cookie: Seq<char>)
    ensures
        reply.succeeds(None) ==> reply.status == 200 && reply.body is Success && reply.cookie
            is None,
        reply.succeeds(Some(cookie)) ==> reply.status == 200 && reply.body is Success && (
        reply.cookie matches Some(c) && c@ == cookie),
        reply.fails(status, message) ==> reply.status == status && (
        reply.body matches ReplyBody::Error { message: m } && m@ == message) && reply.cookie is None,
        OK == 200,
        BAD_REQUEST == 400,
        UNAUTHORIZED == 401,
        INTERNAL_SERVER_ERROR == 500,
{
}

/// The cookie of a session is its name with the attributes that keep it to the server
/// for thirty days.
pub proof fn law_cookies(token: Seq<char>)
    ensures
        session_cookie(token) == "rsdlp_session="@ + token
            + "; HttpOnly; Path=/; SameSite=Lax; Max-Age=2592000"@,
        ending_cookie() == "rsdlp_session=; HttpOnly; Path=/; Max-Age=0"@,
{
}

/// A cookie of another name is no session.
pub proof fn law_other_cookies(header: Seq<char>)
    requires
        !header.contains(';'),
        !has_prefix(trimmed(header), "rsdlp_session="@),
    ensures
        cookie_sessions(header).len() == 0,
{
    law_pieces(header, Seq::empty(), ';');
    assert(seq![header].drop_last() =~= Seq::empty());
    assert(sessions_in(Seq::<Seq<char>>::empty()) =~= Seq::empty());
}

/// Credentials are complete where the number is positive and neither text is blank,
/// and are stored one by one as they are.
pub proof fn law_credentials(req: TgConfigReq, list: Seq<Setting>)
    ensures
        req.is_complete() <==> req.api_id > 0 && trimmed(req.api_hash@).len() > 0 && trimmed(
            req.bot_token@,
        ).len() > 0,
        settings(list) == req.stored() ==> {
            &&& list.len() == 3
            &&& list[0].key@ == "tg_api_id"@ && list[0].value@ == signed_decimal(req.api_id as int)
            &&& list[1].key@ == "tg_api_hash"@ && list[1].value@ == req.api_hash@
            &&& list[2].key@ == "tg_bot_token"@ && list[2].value@ == req.bot_token@
        },
{
    let t = settings(list);
    assert(t.len() == list.len());
    if settings(list) == req.stored() {
        assert(t[0] == (list[0].key@, list[0].value@));
        assert(t[1] == (list[1].key@, list[1].value@));
        assert(t[2] == (list[2].key@, list[2].value@));
    }
}

/// A cookie called `rsdlp_session` is a session with the rest of it as its name,
/// whatever that is.
pub proof fn law_any_session(header: Seq<char>, token: Seq<char>)
    requires
        !header.contains(';'),
        trimmed(header) == "rsdlp_session="@ + token,
    ensures
        cookie_sessions(header) == seq![token],
{
    law_pieces(header, Seq::empty(), ';');
    law_prefix(trimmed(header), "rsdlp_session="@, token);
    assert(seq![header].drop_last() =~= Seq::empty());
    assert(sessions_in(Seq::<Seq<char>>::empty()) =~= Seq::empty());
    assert(cookie_sessions(header) =~= seq![token]);
}

} // verus!
