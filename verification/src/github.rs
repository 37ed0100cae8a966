//! The decisions of GitHub sync: the OAuth device flow (how long to wait,
//! when a device code has expired, what a token poll's reply means), how an
//! HTTP status is read, and how encrypted history travels as the base64
//! content of a repository file.  The requests themselves are sent by the
//! application.
use vstd::prelude::*;
use vstd::string::StringExecFns;
use crate::config::AppConfig;
use crate::error::{ErrorModel, SighFarError};
use crate::morse::chars_equal;
use crate::primitives::{base64_decode, base64_decoded, base64_encode, base64_encode_spec, base64_len_fits};
use crate::text::{chars_of, string_from_chars};

verus! {

/// The shortest wait between token polls, in seconds.
pub const MIN_POLL_INTERVAL: u64 = 5;

/// A device sign-in in progress.
#[derive(Debug, Clone, PartialEq, Eq)]
pub struct DeviceAuthState {
    pub device_code: String,
    pub user_code: String,
    pub verification_uri: String,
    /// Seconds the device code stays valid.
    pub expires_in: u64,
    /// Seconds to wait between polls.
    pub interval: u64,
    /// Seconds since the Unix epoch when the sign-in started.
    pub created_at_epoch: u64,
}

/// A signed-in GitHub account.
#[derive(Debug, Clone, PartialEq, Eq)]
pub struct GitHubSession {
    pub access_token: String,
    pub username: String,
}

/// Where a device sign-in stands after a poll.
#[derive(Debug, Clone, PartialEq, Eq)]
pub enum DevicePollStatus {
    Authorized(GitHubSession),
    Pending(String),
}

/// Whether two sign-ins hold the same codes and times.
pub open spec fn same_device(a: DeviceAuthState, b: DeviceAuthState) -> bool {
    &&& a.device_code@ == b.device_code@
    &&& a.user_code@ == b.user_code@
    &&& a.verification_uri@ == b.verification_uri@
    &&& a.expires_in == b.expires_in
    &&& a.interval == b.interval
    &&& a.created_at_epoch == b.created_at_epoch
}

/// Whether two sessions hold the same token and account.
pub open spec fn same_session(a: GitHubSession, b: GitHubSession) -> bool {
    a.access_token@ == b.access_token@ && a.username@ == b.username@
}

impl GitHubSession {
    /// A copy of this session.
    pub fn duplicate(&self) -> (r: GitHubSession)
        ensures
            same_session(r, *self),
    {
        GitHubSession { access_token: self.access_token.clone(), username: self.username.clone() }
    }
}

impl DeviceAuthState {
    /// A copy of this sign-in.
    pub fn duplicate(&self) -> (r: DeviceAuthState)
        ensures
            same_device(r, *self),
    {
        DeviceAuthState {
            device_code: self.device_code.clone(),
            user_code: self.user_code.clone(),
            verification_uri: self.verification_uri.clone(),
            expires_in: self.expires_in,
            interval: self.interval,
            created_at_epoch: self.created_at_epoch,
        }
    }

    /// The sign-in GitHub has just started at `now_epoch`: it is polled no
    /// more often than every 5 seconds, whatever interval GitHub gave.
    pub fn started(
        device_code: String,
        user_code: String,
        verification_uri: String,
        expires_in: u64,
        interval: u64,
        now_epoch: u64,
    ) -> (s: DeviceAuthState)
        ensures
            s.device_code@ == device_code@,
            s.user_code@ == user_code@,
            s.verification_uri@ == verification_uri@,
            s.expires_in == expires_in,
            s.interval == (if interval < MIN_POLL_INTERVAL { MIN_POLL_INTERVAL } else { interval }),
            s.created_at_epoch == now_epoch,
    {
        DeviceAuthState {
            device_code,
            user_code,
            verification_uri,
            expires_in,
            interval: if interval < MIN_POLL_INTERVAL { MIN_POLL_INTERVAL } else { interval },
            created_at_epoch: now_epoch,
        }
    }

    /// Whether the device code has run out at `now_epoch`.
    pub fn expired(&self, now_epoch: u64) -> (b: bool)
        ensures
            b == (now_epoch > self.created_at_epoch + self.expires_in),
    {
        now_epoch > self.created_at_epoch && now_epoch - self.created_at_epoch > self.expires_in
    }
}

// ---------------------------------------------------------------- polling

/// What the user is told while a sign-in is pending, for the error code of
/// GitHub's reply.
pub open spec fn pending_message_text(error: Seq<char>) -> Seq<char> {
    if error == "authorization_pending"@ {
        "Waiting for GitHub authorization."@
    } else if error == "slow_down"@ {
        "GitHub asked the app to slow down polling."@
    } else if error == "expired_token"@ {
        "Device code expired, start sign-in again."@
    } else {
        "GitHub returned device flow error: "@ + error
    }
}

/// The message for a pending sign-in.
pub fn pending_message(error: &str) -> (m: String)
    ensures
        m@ == pending_message_text(error@),
{
    let e = chars_of(error);
    if chars_equal(e.as_slice(), chars_of("authorization_pending").as_slice()) {
        String::from_str("Waiting for GitHub authorization.")
    } else if chars_equal(e.as_slice(), chars_of("slow_down").as_slice()) {
        String::from_str("GitHub asked the app to slow down polling.")
    } else if chars_equal(e.as_slice(), chars_of("expired_token").as_slice()) {
        String::from_str("Device code expired, start sign-in again.")
    } else {
        String::from_str("GitHub returned device flow error: ").concat(error)
    }
}

/// What to do after a token poll.
#[derive(Debug, Clone, PartialEq, Eq)]
pub enum PollStep {
    /// Still pending: show `message`, after waiting `wait_secs` seconds.
    Pending { message: String, wait_secs: u64 },
    /// Authorized: look up the account the token belongs to.
    FetchUser { access_token: String },
}

/// What a token poll's reply calls for.  An error code means the sign-in is
/// still pending (GitHub's `slow_down` asks for a wait of the interval plus
/// 5 seconds); otherwise the reply must carry an access token.
pub fn poll_step(device: &DeviceAuthState, error: Option<&str>, access_token: Option<String>) -> (r: Result<PollStep, SighFarError>)
    requires
        error matches Some(e) && e@ == "slow_down"@ ==> device.interval + 5 <= u64::MAX,
    ensures
        match error {
            Some(e) => r matches Ok(PollStep::Pending { message, wait_secs }) && message@ == pending_message_text(e@)
                && wait_secs == (if e@ == "slow_down"@ { device.interval + 5 } else { 0 }),
            None => match access_token {
                Some(t) => r matches Ok(PollStep::FetchUser { access_token }) && access_token@ == t@,
                None => r matches Err(x) && x@ == ErrorModel::NoAccessToken,
            },
        },
{
    match error {
        Some(e) => {
            let slow = chars_equal(chars_of(e).as_slice(), chars_of("slow_down").as_slice());
            let wait_secs: u64 = if slow { device.interval + 5 } else { 0 };
            Ok(PollStep::Pending { message: pending_message(e), wait_secs })
        },
        None => match access_token {
            Some(t) => Ok(PollStep::FetchUser { access_token: t }),
            None => Err(SighFarError::NoAccessToken),
        },
    }
}

/// Checks, before polling, that the device code is still valid at `now_epoch`.
pub fn check_not_expired(device: &DeviceAuthState, now_epoch: u64) -> (r: Result<(), SighFarError>)
    ensures
        r is Ok <==> now_epoch <= device.created_at_epoch + device.expires_in,
        r matches Err(x) ==> x@ == ErrorModel::DeviceCodeExpired,
{
    if device.expired(now_epoch) {
        Err(SighFarError::DeviceCodeExpired)
    } else {
        Ok(())
    }
}

// ---------------------------------------------------------------- HTTP status

/// How a reply's HTTP status is read.
#[derive(Debug, Clone, Copy, PartialEq, Eq, Structural)]
pub enum StatusClass {
    /// 200 to 299.
    Success,
    /// 404: the repository or file does not exist.
    NotFound,
    /// Anything else.
    Failure,
}

/// The class of an HTTP status code.
pub fn status_class(code: u16) -> (c: StatusClass)
    ensures
        c == (if 200 <= code <= 299 {
            StatusClass::Success
        } else if code == 404 {
            StatusClass::NotFound
        } else {
            StatusClass::Failure
        }),
{
    if 200 <= code && code <= 299 {
        StatusClass::Success
    } else if code == 404 {
        StatusClass::NotFound
    } else {
        StatusClass::Failure
    }
}

// ---------------------------------------------------------------- repository

/// The path of the encrypted history inside the sync repository.
pub open spec fn history_path_text() -> Seq<char> {
    "history/history.enc"@
}

/// The path of the encrypted history inside the sync repository.
pub fn history_path() -> (p: String)
    ensures
        p@ == history_path_text(),
{
    String::from_str("history/history.enc")
}

/// `owner/name` for a repository.
pub fn repo_full_name(username: &str, repo_name: &str) -> (r: String)
    ensures
        r@ == username@ + "/"@ + repo_name@,
{
    String::from_str(username).concat("/").concat(repo_name)
}

/// A text without its newlines.
pub open spec fn without_newlines(s: Seq<char>) -> Seq<char> {
    s.filter(|c: char| c != '\n')
}

/// The bytes of a repository file from the base64 `content` GitHub sends,
/// which it breaks into lines.
pub fn content_blob(content: &str) -> (r: Result<Vec<u8>, SighFarError>)
    ensures
        match r {
            Ok(v) => base64_decoded(without_newlines(content@)) == Some(v@),
            Err(x) => base64_decoded(without_newlines(content@)) is None && x@ == ErrorModel::RemoteHistoryNotBase64,
        },
        forall|b: Seq<u8>| without_newlines(content@) == #[trigger] base64_encode_spec(b) ==> (r matches Ok(v) && v@ == b),
{
    let chars = chars_of(content);
    let mut kept: Vec<char> = Vec::new();
    let mut i: usize = 0;
    while i < chars.len()
        invariant
            i <= chars@.len(),
            kept@ == chars@.take(i as int).filter(|c: char| c != '\n'),
        decreases chars@.len() - i,
    {
        let c = chars[i];
        proof {
            assert(chars@.take(i as int + 1) =~= chars@.take(i as int).push(c));
            chars@.take(i as int).lemma_filter_push(c, |c: char| c != '\n');
        }
        if c != '\n' {
            kept.push(c);
        }
        i = i + 1;
    }
    assert(chars@.take(chars@.len() as int) =~= chars@);
    let text = string_from_chars(kept.as_slice());
    match base64_decode(text.as_str()) {
        Some(v) => Ok(v),
        None => Err(SighFarError::RemoteHistoryNotBase64),
    }
}

/// The base64 `content` that uploads a file's bytes.
pub fn content_text(blob: &[u8]) -> (s: String)
    requires
        base64_len_fits(blob@.len() as int),
    ensures
        s@ == base64_encode_spec(blob@),
        base64_decoded(s@) == Some(blob@),
{
    base64_encode(blob)
}

// ---------------------------------------------------------------- settings

/// The settings screen: the configuration, what sync last reported, the
/// signed-in account and a device sign-in in progress.
#[derive(Debug, Clone, PartialEq, Eq)]
pub struct SettingsState {
    pub config: AppConfig,
    pub sync_status: String,
    pub signed_in: Option<GitHubSession>,
    pub device_flow: Option<DeviceAuthState>,
}

impl SettingsState {
    /// The settings screen before any sign-in.
    pub fn new(config: AppConfig) -> (s: SettingsState)
        ensures
            s.config == config,
            s.sync_status@ == "GitHub sync is not connected yet."@,
            s.signed_in is None,
            s.device_flow is None,
    {
        SettingsState {
            config,
            sync_status: String::from_str("GitHub sync is not connected yet."),
            signed_in: None,
            device_flow: None,
        }
    }

    /// The sign-in to poll; without one, the status asks to start sign-in.
    pub fn device_to_poll(&mut self) -> (d: Option<DeviceAuthState>)
        ensures
            d is Some <==> old(self).device_flow is Some,
            d matches Some(x) ==> same_device(x, old(self).device_flow->Some_0),
            final(self).config == old(self).config,
            final(self).device_flow == old(self).device_flow,
            final(self).signed_in == old(self).signed_in,
            d is Some ==> final(self).sync_status == old(self).sync_status,
            d is None ==> final(self).sync_status@ == "Start sign-in first to get a device code."@,
    {
        match &self.device_flow {
            Some(d) => Some(d.duplicate()),
            None => {
                self.sync_status = String::from_str("Start sign-in first to get a device code.");
                None
            },
        }
    }

    /// The account to sync with; without one, the status asks to sign in.
    pub fn session_for_sync(&mut self) -> (s: Option<GitHubSession>)
        ensures
            s is Some <==> old(self).signed_in is Some,
            s matches Some(x) ==> same_session(x, old(self).signed_in->Some_0),
            final(self).config == old(self).config,
            final(self).device_flow == old(self).device_flow,
            final(self).signed_in == old(self).signed_in,
            s is Some ==> final(self).sync_status == old(self).sync_status,
            s is None ==> final(self).sync_status@ == "Sign in to GitHub first."@,
    {
        match &self.signed_in {
            Some(session) => Some(session.duplicate()),
            None => {
                self.sync_status = String::from_str("Sign in to GitHub first.");
                None
            },
        }
    }

    /// Records the start of a sign-in: the status says where to enter the
    /// user code, or gives the failure's message.
    pub fn record_sign_in_started(&mut self, outcome: Result<DeviceAuthState, String>)
        ensures
            final(self).config == old(self).config,
            final(self).signed_in == old(self).signed_in,
            match outcome {
                Ok(d) => {
                    &&& final(self).device_flow matches Some(x) && same_device(x, d)
                    &&& final(self).sync_status@ == "Open "@ + d.verification_uri@ + " and enter code "@ + d.user_code@
                        + "."@
                },
                Err(message) => final(self).device_flow == old(self).device_flow && final(self).sync_status == message,
            },
    {
        match outcome {
            Ok(d) => {
                let status = String::from_str("Open ").concat(d.verification_uri.as_str()).concat(
                    " and enter code ",
                ).concat(d.user_code.as_str()).concat(".");
                self.device_flow = Some(d.duplicate());
                self.sync_status = status;
            },
            Err(message) => {
                self.sync_status = message;
            },
        }
    }

    /// Records a sync step's outcome: `done` on success, else the failure's
    /// message.
    pub fn record_step(&mut self, outcome: Result<(), String>, done: &str)
        ensures
            final(self).config == old(self).config,
            final(self).signed_in == old(self).signed_in,
            final(self).device_flow == old(self).device_flow,
            match outcome {
                Ok(()) => final(self).sync_status@ == done@,
                Err(message) => final(self).sync_status == message,
            },
    {
        match outcome {
            Ok(()) => {
                self.sync_status = String::from_str(done);
            },
            Err(message) => {
                self.sync_status = message;
            },
        }
    }

    /// Records that the sync repository is ready, or why it is not.
    pub fn record_repo_ready(&mut self, outcome: Result<String, String>)
        ensures
            final(self).config == old(self).config,
            final(self).signed_in == old(self).signed_in,
            final(self).device_flow == old(self).device_flow,
            match outcome {
                Ok(repo) => final(self).sync_status@ == "Private sync repository ready: "@ + repo@,
                Err(message) => final(self).sync_status == message,
            },
    {
        match outcome {
            Ok(repo) => {
                self.sync_status = String::from_str("Private sync repository ready: ").concat(repo.as_str());
            },
            Err(message) => {
                self.sync_status = message;
            },
        }
    }

    /// Records a poll's outcome: signed in under the account's name, the
    /// pending message, or the failure's message.
    pub fn record_poll(&mut self, outcome: Result<DevicePollStatus, String>)
        ensures
            final(self).config == old(self).config,
            final(self).device_flow == old(self).device_flow,
            match outcome {
                Ok(DevicePollStatus::Authorized(session)) => {
                    &&& final(self).signed_in == Some(session)
                    &&& final(self).sync_status@ == "Signed in as "@ + session.username@ + "."@
                },
                Ok(DevicePollStatus::Pending(message)) => {
                    &&& final(self).signed_in == old(self).signed_in
                    &&& final(self).sync_status == message
                },
                Err(message) => {
                    &&& final(self).signed_in == old(self).signed_in
                    &&& final(self).sync_status == message
                },
            },
    {
        match outcome {
            Ok(DevicePollStatus::Authorized(session)) => {
                let status = String::from_str("Signed in as ").concat(session.username.as_str()).concat(".");
                self.signed_in = Some(session);
                self.sync_status = status;
            },
            Ok(DevicePollStatus::Pending(message)) => {
                self.sync_status = message;
            },
            Err(message) => {
                self.sync_status = message;
            },
        }
    }
}

} // verus!
