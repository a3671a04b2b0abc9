use vstd::prelude::*;

use crate::ledger::strings_view;

verus! {

/// Seconds before any remote call is abandoned.
pub const REQUEST_TIMEOUT_SECS: u64 = 15;

/// Seconds between two polls of a QR challenge.
pub const POLL_INTERVAL_SECS: u64 = 2;

/// Poll status: the scan was confirmed.
pub const CONFIRMED_CODE: i64 = 0;

/// Poll status: the challenge expired.
pub const EXPIRED_CODE: i64 = 86038;

pub open spec fn user_agent_text() -> Seq<char> {
    "Mozilla/5.0 (Windows NT 10.0; Win64; x64; rv:138.0) Gecko/20100101 Firefox/138.0"@
}

#[derive(Debug, Clone, Copy, PartialEq, Eq, Structural)]
pub enum SessionState {
    Unauthenticated,
    AwaitingScan,
    Authenticated,
    Expired,
}

/// The field that a platform response lacked.
#[derive(Debug, Clone, Copy, PartialEq, Eq, Structural)]
pub enum ProtocolField {
    Code,
    Message,
    AccountId,
    Url,
    PollKey,
}

#[derive(Debug)]
pub enum AuthError {
    /// A response did not have the expected shape.
    Protocol(ProtocolField),
    /// The platform refused to issue a challenge, with its message.
    Refused(String),
    /// The challenge expired before it was confirmed, with the platform's message.
    Expired(String),
    /// The handshake is over and cannot be polled again.
    Finished,
    /// The credential was confirmed but the account could not be read.
    NotAuthenticated,
}

/// The single authenticated session of the process.
#[derive(Debug)]
pub struct Session {
    credential: String,
    account_id: i64,
    state: SessionState,
}

pub struct SessionModel {
    pub credential: Seq<char>,
    pub account_id: i64,
    pub state: SessionState,
}

impl View for Session {
    type V = SessionModel;

    closed spec fn view(&self) -> SessionModel {
        SessionModel { credential: self.credential@, account_id: self.account_id, state: self.state }
    }
}

/// The cookie header that requests carry for a credential: none when it is empty.
pub open spec fn cookie_header(credential: Seq<char>) -> Option<Seq<char>> {
    if credential.len() == 0 {
        None
    } else {
        Some(credential)
    }
}

/// How the HTTP client is to be built: identification header, optional cookie
/// header, request timeout.
#[derive(Debug)]
pub struct ClientConfig {
    pub user_agent: String,
    pub cookie: Option<String>,
    pub timeout_secs: u64,
}

pub open spec fn begin_model(s: SessionModel) -> SessionModel {
    SessionModel { state: SessionState::AwaitingScan, ..s }
}

pub open spec fn commit_model(s: SessionModel, credential: Seq<char>) -> SessionModel {
    SessionModel { credential, ..s }
}

pub open spec fn restore_model(s: SessionModel, prior: SessionState) -> SessionModel {
    SessionModel { state: prior, ..s }
}

/// The session after a probe that confirmed the account.
pub open spec fn signed_in_model(s: SessionModel, account_id: i64) -> SessionModel {
    SessionModel { account_id, state: SessionState::Authenticated, ..s }
}

/// The session after a probe that reported the account as not signed in.
pub open spec fn rejected_model(s: SessionModel) -> SessionModel {
    SessionModel {
        state: if s.credential.len() == 0 {
            SessionState::Unauthenticated
        } else {
            SessionState::Expired
        },
        ..s
    }
}

impl Session {
    /// A session that has never signed in.
    pub fn new() -> (r: Session)
        ensures
            r@.credential.len() == 0,
            r@.state == SessionState::Unauthenticated,
    {
        Session { credential: String::new(), account_id: 0, state: SessionState::Unauthenticated }
    }

    /// A session holding a credential kept from an earlier run, not yet probed.
    pub fn restore(credential: &str) -> (r: Session)
        ensures
            r@.credential == credential@,
            r@.state == SessionState::Unauthenticated,
    {
        Session {
            credential: String::from_str(credential),
            account_id: 0,
            state: SessionState::Unauthenticated,
        }
    }

    pub fn credential(&self) -> (r: &str)
        ensures
            r@ == self@.credential,
    {
        self.credential.as_str()
    }

    pub fn state(&self) -> (r: SessionState)
        ensures
            r == self@.state,
    {
        self.state
    }

    /// The account, known only while the session is authenticated.
    pub fn account_id(&self) -> (r: Option<i64>)
        ensures
            r is Some <==> self@.state == SessionState::Authenticated,
            r matches Some(m) ==> m == self@.account_id,
    {
        match self.state {
            SessionState::Authenticated => Some(self.account_id),
            _ => None,
        }
    }

    /// How to build the client for the current credential.
    pub fn client_config(&self) -> (r: ClientConfig)
        ensures
            r.user_agent@ == user_agent_text(),
            r.timeout_secs == REQUEST_TIMEOUT_SECS,
            r.cookie is Some <==> cookie_header(self@.credential) is Some,
            r.cookie matches Some(c) ==> cookie_header(self@.credential) == Some(c@),
    {
        let cookie = if self.credential.as_str().unicode_len() == 0 {
            None
        } else {
            Some(self.credential.clone())
        };
        ClientConfig {
            user_agent: String::from_str(
                "Mozilla/5.0 (Windows NT 10.0; Win64; x64; rv:138.0) Gecko/20100101 Firefox/138.0",
            ),
            cookie,
            timeout_secs: REQUEST_TIMEOUT_SECS,
        }
    }

    /// Takes in the answer of the account-status call: status code `0` with an
    /// account id signs the session in; another code marks it as not signed
    /// in; a missing field is an error and changes nothing.
    pub fn apply_probe(&mut self, code: Option<i64>, mid: Option<i64>) -> (r: Result<bool, AuthError>)
        ensures
            code is None ==> (r matches Err(AuthError::Protocol(ProtocolField::Code))),
            code == Some(0i64) && mid is None ==> (r matches Err(
                AuthError::Protocol(ProtocolField::AccountId),
            )),
            r is Err ==> final(self)@ == old(self)@,
            code == Some(0i64) && mid is Some ==> (r matches Ok(true)) && final(self)@
                == signed_in_model(old(self)@, mid->0),
            code is Some && code != Some(0i64) ==> (r matches Ok(false)) && final(self)@
                == rejected_model(old(self)@),
    {
        match code {
            None => Err(AuthError::Protocol(ProtocolField::Code)),
            Some(c) => {
                if c == 0 {
                    match mid {
                        None => Err(AuthError::Protocol(ProtocolField::AccountId)),
                        Some(m) => {
                            self.account_id = m;
                            self.state = SessionState::Authenticated;
                            Ok(true)
                        },
                    }
                } else {
                    if self.credential.as_str().unicode_len() == 0 {
                        self.state = SessionState::Unauthenticated;
                    } else {
                        self.state = SessionState::Expired;
                    }
                    Ok(false)
                }
            },
        }
    }
}

/// A one-time QR challenge: the URL to show and the key to poll with.
#[derive(Debug)]
pub struct QrChallenge {
    pub url: String,
    pub key: String,
}

/// Reads the answer to a challenge request: status `0` with a URL and a key
/// gives the challenge; another status is a refusal carrying the platform's
/// message; a missing field is a protocol error.
pub fn parse_qr_issue(
    code: Option<i64>,
    message: Option<String>,
    url: Option<String>,
    key: Option<String>,
) -> (r: Result<QrChallenge, AuthError>)
    ensures
        code is None ==> (r matches Err(AuthError::Protocol(ProtocolField::Code))),
        code is Some && code != Some(0i64) && message is None ==> (r matches Err(
            AuthError::Protocol(ProtocolField::Message),
        )),
        code is Some && code != Some(0i64) && message is Some ==> (r matches Err(
            AuthError::Refused(m),
        ) && m@ == message->0@),
        code == Some(0i64) && url is None ==> (r matches Err(AuthError::Protocol(ProtocolField::Url))),
        code == Some(0i64) && url is Some && key is None ==> (r matches Err(
            AuthError::Protocol(ProtocolField::PollKey),
        )),
        code == Some(0i64) && url is Some && key is Some ==> (r matches Ok(c) && c.url@ == url->0@
            && c.key@ == key->0@),
{
    match code {
        None => Err(AuthError::Protocol(ProtocolField::Code)),
        Some(c) => {
            if c != 0 {
                match message {
                    None => Err(AuthError::Protocol(ProtocolField::Message)),
                    Some(m) => Err(AuthError::Refused(m)),
                }
            } else {
                match (url, key) {
                    (None, _) => Err(AuthError::Protocol(ProtocolField::Url)),
                    (Some(_), None) => Err(AuthError::Protocol(ProtocolField::PollKey)),
                    (Some(u), Some(k)) => Ok(QrChallenge { url: u, key: k }),
                }
            }
        },
    }
}

/// The `name=value` part of a set-cookie header: what precedes its first `;`.
pub open spec fn cookie_pair(v: Seq<char>) -> Seq<char>
    decreases v.len(),
{
    if v.len() == 0 {
        v
    } else if v[0] == ';' {
        Seq::empty()
    } else {
        seq![v[0]] + cookie_pair(v.drop_first())
    }
}

/// The credential that set-cookie headers carry: each pair followed by `"; "`.
pub open spec fn cookie_line(values: Seq<Seq<char>>) -> Seq<char>
    decreases values.len(),
{
    if values.len() == 0 {
        Seq::empty()
    } else {
        cookie_line(values.drop_last()) + cookie_pair(values.last()) + "; "@
    }
}

proof fn lemma_cookie_pair_prefix(v: Seq<char>, k: int)
    requires
        0 <= k <= v.len(),
        forall|j: int| 0 <= j < k ==> v[j] != ';',
        k == v.len() || v[k] == ';',
    ensures
        cookie_pair(v) == v.subrange(0, k),
    decreases v.len(),
{
    if v.len() == 0 {
        assert(v.subrange(0, k) =~= v);
    } else if k == 0 {
        assert(v.subrange(0, k) =~= Seq::<char>::empty());
    } else {
        let t = v.drop_first();
        assert forall|j: int| 0 <= j < k - 1 implies t[j] != ';' by {
            assert(t[j] == v[j + 1]);
        }
        lemma_cookie_pair_prefix(t, k - 1);
        assert(v.subrange(0, k) =~= seq![v[0]] + t.subrange(0, k - 1));
    }
}

/// The part of one set-cookie header before its first `;`.
fn cookie_pair_of(v: &str) -> (r: &str)
    ensures
        r@ == cookie_pair(v@),
{
    let n = v.unicode_len();
    let mut k: usize = 0;
    while k < n && v.get_char(k) != ';'
        invariant
            n == v@.len(),
            k <= n,
            forall|j: int| 0 <= j < k ==> v@[j] != ';',
        decreases n - k,
    {
        k = k + 1;
    }
    proof {
        lemma_cookie_pair_prefix(v@, k as int);
    }
    v.substring_char(0, k)
}

/// Builds the session credential from the set-cookie headers of a confirmed
/// poll.
pub fn cookie_from_set_cookie(values: &Vec<String>) -> (r: String)
    ensures
        r@ == cookie_line(strings_view(values@)),
{
    let mut out = String::new();
    let mut i: usize = 0;
    while i < values.len()
        invariant
            i <= values.len(),
            out@ == cookie_line(strings_view(values@).subrange(0, i as int)),
        decreases values.len() - i,
    {
        let pair = cookie_pair_of(values[i].as_str());
        out.append(pair);
        out.append("; ");
        proof {
            let pre = strings_view(values@).subrange(0, i as int);
            let post = strings_view(values@).subrange(0, i + 1);
            assert(post.drop_last() =~= pre);
            assert(post.last() == values@[i as int]@);
        }
        i = i + 1;
    }
    assert(strings_view(values@).subrange(0, values.len() as int) =~= strings_view(values@));
    out
}

#[derive(Debug, Clone, Copy, PartialEq, Eq, Structural)]
pub enum HandshakePhase {
    AwaitingScan,
    Confirmed,
    Failed,
}

/// What one poll told the handshake.
#[derive(Debug, Clone, Copy, PartialEq, Eq, Structural)]
pub enum PollStep {
    /// Not confirmed yet: poll again after the interval.
    Pending,
    /// Confirmed: the credential is committed; probe the account next.
    Confirmed,
}

/// One QR login attempt, tied to one challenge.
#[derive(Debug)]
pub struct Handshake {
    key: String,
    phase: HandshakePhase,
    prior: SessionState,
}

impl Handshake {
    pub closed spec fn spec_phase(&self) -> HandshakePhase {
        self.phase
    }

    /// The session state from before the attempt.
    pub closed spec fn spec_prior(&self) -> SessionState {
        self.prior
    }

    pub closed spec fn spec_key(&self) -> Seq<char> {
        self.key@
    }

    pub fn phase(&self) -> (r: HandshakePhase)
        ensures
            r == self.spec_phase(),
    {
        self.phase
    }

    pub fn poll_key(&self) -> (r: &str)
        ensures
            r@ == self.spec_key(),
    {
        self.key.as_str()
    }

    /// Starts an attempt on `challenge`: the session awaits the scan.
    pub fn begin(session: &mut Session, challenge: &QrChallenge) -> (r: Handshake)
        ensures
            final(session)@ == begin_model(old(session)@),
            r.spec_phase() == HandshakePhase::AwaitingScan,
            r.spec_prior() == old(session)@.state,
            r.spec_key() == challenge.key@,
    {
        let prior = session.state;
        session.state = SessionState::AwaitingScan;
        Handshake { key: challenge.key.clone(), phase: HandshakePhase::AwaitingScan, prior }
    }

    /// Takes in one poll answer. Status `0` commits the credential built from
    /// `set_cookies` in one step; status `86038` ends the attempt and puts the
    /// session back as it was before it; any other status keeps waiting. A
    /// missing field ends the attempt the same way, as a protocol error. An
    /// attempt that is over is never polled again.
    pub fn on_poll(
        &mut self,
        session: &mut Session,
        code: Option<i64>,
        message: Option<String>,
        set_cookies: &Vec<String>,
    ) -> (r: Result<PollStep, AuthError>)
        ensures
            old(self).spec_key() == final(self).spec_key(),
            old(self).spec_prior() == final(self).spec_prior(),
            old(self).spec_phase() != HandshakePhase::AwaitingScan ==> (r matches Err(
                AuthError::Finished,
            )) && *final(self) == *old(self) && final(session)@ == old(session)@,
            old(self).spec_phase() == HandshakePhase::AwaitingScan ==> {
                &&& (message is None || code is None) ==> r is Err && final(self).spec_phase()
                    == HandshakePhase::Failed && final(session)@ == restore_model(
                    old(session)@,
                    old(self).spec_prior(),
                )
                &&& message is None ==> (r matches Err(AuthError::Protocol(ProtocolField::Message)))
                &&& message is Some && code is None ==> (r matches Err(
                    AuthError::Protocol(ProtocolField::Code),
                ))
                &&& message is Some && code == Some(EXPIRED_CODE) ==> (r matches Err(
                    AuthError::Expired(m),
                ) && m@ == message->0@) && final(self).spec_phase() == HandshakePhase::Failed
                    && final(session)@ == restore_model(old(session)@, old(self).spec_prior())
                &&& message is Some && code == Some(CONFIRMED_CODE) ==> (r matches Ok(
                    PollStep::Confirmed,
                )) && final(self).spec_phase() == HandshakePhase::Confirmed && final(session)@
                    == commit_model(old(session)@, cookie_line(strings_view(set_cookies@)))
                &&& message is Some && code is Some && code != Some(CONFIRMED_CODE) && code != Some(
                    EXPIRED_CODE,
                ) ==> (r matches Ok(PollStep::Pending)) && *final(self) == *old(self)
                    && final(session)@ == old(session)@
            },
    {
        if self.phase != HandshakePhase::AwaitingScan {
            return Err(AuthError::Finished);
        }
        let message = match message {
            None => {
                self.phase = HandshakePhase::Failed;
                session.state = self.prior;
                return Err(AuthError::Protocol(ProtocolField::Message));
            },
            Some(m) => m,
        };
        let code = match code {
            None => {
                self.phase = HandshakePhase::Failed;
                session.state = self.prior;
                return Err(AuthError::Protocol(ProtocolField::Code));
            },
            Some(c) => c,
        };
        if code == CONFIRMED_CODE {
            session.credential = cookie_from_set_cookie(set_cookies);
            self.phase = HandshakePhase::Confirmed;
            Ok(PollStep::Confirmed)
        } else if code == EXPIRED_CODE {
            self.phase = HandshakePhase::Failed;
            session.state = self.prior;
            Err(AuthError::Expired(message))
        } else {
            Ok(PollStep::Pending)
        }
    }

    /// Takes in the account probe made after confirmation: the attempt
    /// succeeds only if it signs the session in.
    pub fn finish(&self, session: &mut Session, code: Option<i64>, mid: Option<i64>) -> (r: Result<
        (),
        AuthError,
    >)
        requires
            self.spec_phase() == HandshakePhase::Confirmed,
        ensures
            r is Ok <==> code == Some(0i64) && mid is Some,
            r is Ok ==> final(session)@ == signed_in_model(old(session)@, mid->0),
            code is Some && code != Some(0i64) ==> (r matches Err(AuthError::NotAuthenticated)),
            code is None ==> (r matches Err(AuthError::Protocol(ProtocolField::Code))),
            code == Some(0i64) && mid is None ==> (r matches Err(
                AuthError::Protocol(ProtocolField::AccountId),
            )),
    {
        match session.apply_probe(code, mid) {
            Ok(true) => Ok(()),
            Ok(false) => Err(AuthError::NotAuthenticated),
            Err(e) => Err(e),
        }
    }
}

/// An attempt that ends in expiry leaves the session exactly as it was before
/// the attempt began.
pub proof fn lemma_expiry_restores_session(s: SessionModel)
    ensures
        restore_model(begin_model(s), s.state) == s,
{
}

/// A confirmed poll replaces the credential as a whole, and the client that
/// requests go through is derived from that credential alone: a reader never
/// sees a client of one credential beside another credential.
pub proof fn lemma_client_follows_credential(s: SessionModel, set_cookies: Seq<Seq<char>>)
    ensures
        commit_model(s, cookie_line(set_cookies)).credential == cookie_line(set_cookies),
        cookie_header(commit_model(s, cookie_line(set_cookies)).credential) == cookie_header(
            cookie_line(set_cookies),
        ),
        commit_model(s, cookie_line(set_cookies)).state == s.state,
{
}

} // verus!
