//! From connection parameters to the plan of a connect: where to connect,
//! through what, with which credentials, in which order, and which failure
//! each step reports.

use vstd::prelude::*;
use vstd::string::StringExecFns;
use crate::error::{describe, ErrorKind, SshError};
use crate::text::{chars_of, copy_of, string_of, text_of};

verus! {

/// Columns of a terminal whose size was not given.
pub const DEFAULT_COLS: u32 = 80;

/// Rows of a terminal whose size was not given.
pub const DEFAULT_ROWS: u32 = 24;

/// Port of a jump host whose port was not given.
pub const DEFAULT_JUMP_PORT: u16 = 22;

/// Seconds after which a TCP connect is given up.
pub const CONNECT_TIMEOUT_SECS: u64 = 30;

/// Milliseconds after which a read on the socket returns without data, so
/// that the reader of a session stays responsive.
pub const READ_TIMEOUT_MILLIS: u64 = 100;

/// Seconds after which a write on the socket is given up.
pub const WRITE_TIMEOUT_SECS: u64 = 10;

/// What a front end sends to open a session.
#[derive(Debug, Clone, PartialEq, Eq)]
pub struct ConnectParams {
    pub host: String,
    pub port: u16,
    pub username: String,
    /// `"password"` or `"key"`.
    pub auth_method: String,
    pub password: Option<String>,
    pub private_key_path: Option<String>,
    pub private_key_passphrase: Option<String>,
    pub jump_host: Option<String>,
    pub jump_port: Option<u16>,
    pub jump_username: Option<String>,
    pub jump_password: Option<String>,
    pub cols: Option<u32>,
    pub rows: Option<u32>,
}

/// `ConnectParams` with its texts as characters.
pub struct ConnectParamsView {
    pub host: Seq<char>,
    pub port: u16,
    pub username: Seq<char>,
    pub auth_method: Seq<char>,
    pub password: Option<Seq<char>>,
    pub private_key_path: Option<Seq<char>>,
    pub private_key_passphrase: Option<Seq<char>>,
    pub jump_host: Option<Seq<char>>,
    pub jump_port: Option<u16>,
    pub jump_username: Option<Seq<char>>,
    pub jump_password: Option<Seq<char>>,
    pub cols: Option<u32>,
    pub rows: Option<u32>,
}

impl View for ConnectParams {
    type V = ConnectParamsView;

    open spec fn view(&self) -> ConnectParamsView {
        ConnectParamsView {
            host: self.host@,
            port: self.port,
            username: self.username@,
            auth_method: self.auth_method@,
            password: text_of(self.password),
            private_key_path: text_of(self.private_key_path),
            private_key_passphrase: text_of(self.private_key_passphrase),
            jump_host: text_of(self.jump_host),
            jump_port: self.jump_port,
            jump_username: text_of(self.jump_username),
            jump_password: text_of(self.jump_password),
            cols: self.cols,
            rows: self.rows,
        }
    }
}

/// How the user proves who they are.
#[derive(Debug, Clone, PartialEq, Eq)]
pub enum Credentials {
    Password { username: String, password: String },
    KeyFile { username: String, private_key: String, passphrase: Option<String> },
}

/// `Credentials` with its texts as characters.
pub enum CredentialsView {
    Password { username: Seq<char>, password: Seq<char> },
    KeyFile { username: Seq<char>, private_key: Seq<char>, passphrase: Option<Seq<char>> },
}

impl View for Credentials {
    type V = CredentialsView;

    open spec fn view(&self) -> CredentialsView {
        match self {
            Credentials::Password { username, password } => CredentialsView::Password {
                username: username@,
                password: password@,
            },
            Credentials::KeyFile { username, private_key, passphrase } => CredentialsView::KeyFile {
                username: username@,
                private_key: private_key@,
                passphrase: text_of(*passphrase),
            },
        }
    }
}

/// The host through which the target is reached, with the password login
/// used on it.
#[derive(Debug, Clone, PartialEq, Eq)]
pub struct JumpHost {
    pub host: String,
    pub port: u16,
    pub username: String,
    pub password: String,
}

/// `JumpHost` with its texts as characters.
pub struct JumpHostView {
    pub host: Seq<char>,
    pub port: u16,
    pub username: Seq<char>,
    pub password: Seq<char>,
}

impl View for JumpHost {
    type V = JumpHostView;

    open spec fn view(&self) -> JumpHostView {
        JumpHostView {
            host: self.host@,
            port: self.port,
            username: self.username@,
            password: self.password@,
        }
    }
}

/// Everything a connect needs to know before it touches the network.
#[derive(Debug, Clone, PartialEq, Eq)]
pub struct ConnectPlan {
    pub jump: Option<JumpHost>,
    pub host: String,
    pub port: u16,
    pub credentials: Credentials,
    pub term: String,
    pub cols: u32,
    pub rows: u32,
    pub width_px: u32,
    pub height_px: u32,
    /// Seconds after which a TCP connect is given up.
    pub connect_timeout_secs: u64,
    /// Milliseconds after which a read on the socket returns without data.
    pub read_timeout_millis: u64,
    /// Seconds after which a write on the socket is given up.
    pub write_timeout_secs: u64,
    /// Whether small writes go out at once (`TCP_NODELAY`).
    pub no_delay: bool,
}

/// `ConnectPlan` with its texts as characters.
pub struct ConnectPlanView {
    pub jump: Option<JumpHostView>,
    pub host: Seq<char>,
    pub port: u16,
    pub credentials: CredentialsView,
    pub term: Seq<char>,
    pub cols: u32,
    pub rows: u32,
    pub width_px: u32,
    pub height_px: u32,
    pub connect_timeout_secs: u64,
    pub read_timeout_millis: u64,
    pub write_timeout_secs: u64,
    pub no_delay: bool,
}

impl View for ConnectPlan {
    type V = ConnectPlanView;

    open spec fn view(&self) -> ConnectPlanView {
        ConnectPlanView {
            jump: match self.jump {
                Some(j) => Some(j@),
                None => None,
            },
            host: self.host@,
            port: self.port,
            credentials: self.credentials@,
            term: self.term@,
            cols: self.cols,
            rows: self.rows,
            width_px: self.width_px,
            height_px: self.height_px,
            connect_timeout_secs: self.connect_timeout_secs,
            read_timeout_millis: self.read_timeout_millis,
            write_timeout_secs: self.write_timeout_secs,
            no_delay: self.no_delay,
        }
    }
}

/// `value`, or `fallback` where there is none.
pub open spec fn or_else<T>(value: Option<T>, fallback: T) -> T {
    match value {
        Some(v) => v,
        None => fallback,
    }
}

/// The key path with a leading `~` replaced by the home directory: only a
/// path that is `~` or begins with `~/` is changed, and only when the home
/// directory is known.
pub open spec fn expanded(path: Seq<char>, home: Option<Seq<char>>) -> Seq<char> {
    match home {
        Some(h) => if path.len() >= 1 && path[0] == '~' && (path.len() == 1 || path[1] == '/') {
            h + path.subrange(1, path.len() as int)
        } else {
            path
        },
        None => path,
    }
}

/// The jump host that `p` asks for, if any. What `p` leaves out is filled
/// in: port 22, and the user name and password of the target.
pub open spec fn jump_of(p: ConnectParamsView) -> Option<JumpHostView> {
    match p.jump_host {
        Some(host) => Some(
            JumpHostView {
                host,
                port: or_else(p.jump_port, DEFAULT_JUMP_PORT),
                username: or_else(p.jump_username, p.username),
                password: or_else(p.jump_password, or_else(p.password, Seq::empty())),
            },
        ),
        None => None,
    }
}

/// The credentials that `p` asks for, or the reason why it names none.
///
/// With method `password` the password is sent, an empty one where none is
/// given. With method `key` the key file is the given path with `~`
/// expanded, and its passphrase is the one given or else the password; a
/// missing path is a failure, and so is any other method.
pub open spec fn credentials_of(p: ConnectParamsView, home: Option<Seq<char>>) -> Result<
    CredentialsView,
    (ErrorKind, Seq<char>),
> {
    if p.auth_method == "password"@ {
        Ok(
            CredentialsView::Password {
                username: p.username,
                password: or_else(p.password, Seq::empty()),
            },
        )
    } else if p.auth_method == "key"@ {
        match p.private_key_path {
            Some(path) => Ok(
                CredentialsView::KeyFile {
                    username: p.username,
                    private_key: expanded(path, home),
                    passphrase: match p.private_key_passphrase {
                        Some(pass) => Some(pass),
                        None => p.password,
                    },
                },
            ),
            None => Err((ErrorKind::AuthFailed, "No private key file given"@)),
        }
    } else {
        Err((ErrorKind::AuthFailed, "Unknown authentication method: "@ + p.auth_method))
    }
}

/// The plan of a connect with the parameters `p`: a terminal of type
/// `xterm-256color`, 80 by 24 characters unless `p` says otherwise, with
/// no size in pixels; sockets that give up a connect after 30 s and a
/// write after 10 s, return from a read after 100 ms, and send small
/// writes at once.
pub open spec fn plan_of(p: ConnectParamsView, home: Option<Seq<char>>) -> Result<
    ConnectPlanView,
    (ErrorKind, Seq<char>),
> {
    match credentials_of(p, home) {
        Ok(credentials) => Ok(
            ConnectPlanView {
                jump: jump_of(p),
                host: p.host,
                port: p.port,
                credentials,
                term: "xterm-256color"@,
                cols: or_else(p.cols, DEFAULT_COLS),
                rows: or_else(p.rows, DEFAULT_ROWS),
                width_px: 0,
                height_px: 0,
                connect_timeout_secs: CONNECT_TIMEOUT_SECS,
                read_timeout_millis: READ_TIMEOUT_MILLIS,
                write_timeout_secs: WRITE_TIMEOUT_SECS,
                no_delay: true,
            },
        ),
        Err(e) => Err(e),
    }
}

/// The text in `s`, or the empty text.
fn text_or_empty(s: &Option<String>) -> (r: String)
    ensures
        r@ == or_else(text_of(*s), Seq::empty()),
{
    match s {
        Some(t) => t.clone(),
        None => String::new(),
    }
}

/// The key path `path` with a leading `~` replaced by `home`.
pub fn expand_home(path: &str, home: Option<&str>) -> (r: String)
    ensures
        r@ == expanded(
            path@,
            match home {
                Some(h) => Some(h@),
                None => None,
            },
        ),
{
    match home {
        Some(h) => {
            let v = chars_of(path);
            let n = v.len();
            if n >= 1 && v[0] == '~' && (n == 1 || v[1] == '/') {
                let rest = string_of(&v, 1, n);
                String::from_str(h).concat(rest.as_str())
            } else {
                String::from_str(path)
            }
        },
        None => String::from_str(path),
    }
}

/// The jump host that `params` asks for, if any.
pub fn jump_host(params: &ConnectParams) -> (r: Option<JumpHost>)
    ensures
        (match r {
            Some(j) => Some(j@),
            None => None,
        }) == jump_of(params@),
{
    match &params.jump_host {
        Some(host) => Some(
            JumpHost {
                host: host.clone(),
                port: match params.jump_port {
                    Some(p) => p,
                    None => DEFAULT_JUMP_PORT,
                },
                username: match &params.jump_username {
                    Some(u) => u.clone(),
                    None => params.username.clone(),
                },
                password: match &params.jump_password {
                    Some(p) => p.clone(),
                    None => text_or_empty(&params.password),
                },
            },
        ),
        None => None,
    }
}

/// The credentials that `params` asks for, with the home directory `home`
/// of the local user, if it is known.
pub fn credentials(params: &ConnectParams, home: Option<&str>) -> (r: Result<
    Credentials,
    SshError,
>)
    ensures
        match r {
            Ok(c) => credentials_of(
                params@,
                match home {
                    Some(h) => Some(h@),
                    None => None,
                },
            ) == Ok::<CredentialsView, (ErrorKind, Seq<char>)>(c@),
            Err(e) => credentials_of(
                params@,
                match home {
                    Some(h) => Some(h@),
                    None => None,
                },
            ) == Err::<CredentialsView, (ErrorKind, Seq<char>)>(e@),
        },
{
    let by_password = String::from_str("password");
    let by_key = String::from_str("key");
    if params.auth_method == by_password {
        Ok(
            Credentials::Password {
                username: params.username.clone(),
                password: text_or_empty(&params.password),
            },
        )
    } else if params.auth_method == by_key {
        match &params.private_key_path {
            Some(path) => Ok(
                Credentials::KeyFile {
                    username: params.username.clone(),
                    private_key: expand_home(path.as_str(), home),
                    passphrase: match &params.private_key_passphrase {
                        Some(pass) => Some(pass.clone()),
                        None => copy_of(&params.password),
                    },
                },
            ),
            None => Err(SshError::AuthFailed(String::from_str("No private key file given"))),
        }
    } else {
        Err(
            SshError::AuthFailed(
                describe("Unknown authentication method: ", params.auth_method.as_str()),
            ),
        )
    }
}

/// The plan of a connect with `params`, or the failure that `params`
/// itself already causes.
pub fn plan_connect(params: &ConnectParams, home: Option<&str>) -> (r: Result<
    ConnectPlan,
    SshError,
>)
    ensures
        match r {
            Ok(plan) => plan_of(
                params@,
                match home {
                    Some(h) => Some(h@),
                    None => None,
                },
            ) == Ok::<ConnectPlanView, (ErrorKind, Seq<char>)>(plan@),
            Err(e) => plan_of(
                params@,
                match home {
                    Some(h) => Some(h@),
                    None => None,
                },
            ) == Err::<ConnectPlanView, (ErrorKind, Seq<char>)>(e@),
        },
{
    match credentials(params, home) {
        Ok(creds) => Ok(
            ConnectPlan {
                jump: jump_host(params),
                host: params.host.clone(),
                port: params.port,
                credentials: creds,
                term: String::from_str("xterm-256color"),
                cols: match params.cols {
                    Some(c) => c,
                    None => DEFAULT_COLS,
                },
                rows: match params.rows {
                    Some(r) => r,
                    None => DEFAULT_ROWS,
                },
                width_px: 0,
                height_px: 0,
                connect_timeout_secs: CONNECT_TIMEOUT_SECS,
                read_timeout_millis: READ_TIMEOUT_MILLIS,
                write_timeout_secs: WRITE_TIMEOUT_SECS,
                no_delay: true,
            },
        ),
        Err(e) => Err(e),
    }
}

/// One step of a connect.
#[derive(Debug, Clone, Copy, PartialEq, Eq, Structural)]
pub enum ConnectStep {
    /// Open the TCP connection to the jump host.
    JumpTcpConnect,
    /// Perform the SSH handshake with the jump host.
    JumpHandshake,
    /// Log in on the jump host with user name and password.
    JumpAuthenticate,
    /// Ask the jump session whether it is authenticated.
    JumpConfirm,
    /// Open a `direct-tcpip` channel through the jump host to the target.
    OpenTunnel,
    /// Open the TCP connection to the target.
    TcpConnect,
    /// Perform the SSH handshake with the target.
    Handshake,
    /// Present the credentials to the target.
    Authenticate,
    /// Ask the session whether it is authenticated.
    Confirm,
    /// Open the session channel.
    OpenChannel,
    /// Request the pseudo-terminal.
    RequestPty,
    /// Start the interactive shell.
    StartShell,
    /// Switch the session to non-blocking mode.
    SetNonBlocking,
    /// Set a new channel id aside for the session.
    AssignId,
    /// Start the reader of the session.
    SpawnReader,
    /// Enter the session in the registry.
    Register,
    /// Clear the flag that keeps the reader running. No connect plans this
    /// step: it follows a failure that comes after the reader was started.
    StopReader,
}

/// The steps that follow once the transport to the target stands.
pub open spec fn session_steps() -> Seq<ConnectStep> {
    seq![
        ConnectStep::Handshake,
        ConnectStep::Authenticate,
        ConnectStep::Confirm,
        ConnectStep::OpenChannel,
        ConnectStep::RequestPty,
        ConnectStep::StartShell,
        ConnectStep::SetNonBlocking,
        ConnectStep::AssignId,
        ConnectStep::SpawnReader,
        ConnectStep::Register,
    ]
}

/// The steps that set up the transport to the target: one TCP connect, or
/// with a jump host a login there and a tunnel from it.
pub open spec fn transport_steps(via_jump: bool) -> Seq<ConnectStep> {
    if via_jump {
        seq![
            ConnectStep::JumpTcpConnect,
            ConnectStep::JumpHandshake,
            ConnectStep::JumpAuthenticate,
            ConnectStep::JumpConfirm,
            ConnectStep::OpenTunnel,
        ]
    } else {
        seq![ConnectStep::TcpConnect]
    }
}

/// The steps of a connect, in order.
pub open spec fn steps_of(via_jump: bool) -> Seq<ConnectStep> {
    transport_steps(via_jump) + session_steps()
}

/// The kind of error that a failure of `step` is reported as.
pub open spec fn step_error_kind(step: ConnectStep) -> ErrorKind {
    match step {
        ConnectStep::JumpAuthenticate
        | ConnectStep::JumpConfirm
        | ConnectStep::Authenticate
        | ConnectStep::Confirm => ErrorKind::AuthFailed,
        ConnectStep::RequestPty | ConnectStep::StartShell => ErrorKind::ChannelError,
        _ => ErrorKind::ConnectionFailed,
    }
}

/// The words put before the reason when `step` fails.
pub open spec fn step_error_lead(step: ConnectStep) -> Seq<char> {
    match step {
        ConnectStep::JumpTcpConnect => "Jump host TCP connect failed: "@,
        ConnectStep::JumpHandshake => "Jump host SSH handshake failed: "@,
        ConnectStep::JumpAuthenticate => "Jump host rejected the login: "@,
        ConnectStep::JumpConfirm => "Jump host session is not authenticated"@,
        ConnectStep::OpenTunnel => "Tunnel through jump host failed: "@,
        ConnectStep::TcpConnect => "TCP connect failed: "@,
        ConnectStep::Handshake => "SSH handshake failed: "@,
        ConnectStep::Authenticate => Seq::empty(),
        ConnectStep::Confirm => "Session is not authenticated"@,
        ConnectStep::OpenChannel => "Channel open failed: "@,
        ConnectStep::RequestPty => "PTY request failed: "@,
        ConnectStep::StartShell => "Shell start failed: "@,
        ConnectStep::SetNonBlocking => "Switching to non-blocking mode failed: "@,
        ConnectStep::AssignId => "Channel id assignment failed: "@,
        ConnectStep::SpawnReader => "Reader start failed: "@,
        ConnectStep::Register => "Registration failed: "@,
        ConnectStep::StopReader => "Reader stop failed: "@,
    }
}

/// The error that a connect returns when `step` fails for `reason`.
pub open spec fn step_error(step: ConnectStep, reason: Seq<char>) -> (ErrorKind, Seq<char>) {
    (step_error_kind(step), step_error_lead(step) + reason)
}

/// Whether the reader was started among the first `upto` of `steps`.
pub open spec fn reader_started(steps: Seq<ConnectStep>, upto: int) -> bool {
    exists|j: int| 0 <= j < upto && j < steps.len() && steps[j] == ConnectStep::SpawnReader
}

/// A connect under way as plain values: its steps, the place reached in
/// them, whether the reader is to be stopped next, and the failure met.
pub struct ConnectRunView {
    pub steps: Seq<ConnectStep>,
    pub next: int,
    pub stopping: bool,
    pub failure: Option<(ErrorKind, Seq<char>)>,
}

/// A connect with the steps `steps`, at its first step.
pub open spec fn run_of(steps: Seq<ConnectStep>) -> ConnectRunView {
    ConnectRunView { steps, next: 0, stopping: false, failure: None }
}

/// The step that the connect `r` is to perform now, if it has not ended.
pub open spec fn step_now(r: ConnectRunView) -> Option<ConnectStep> {
    if r.stopping {
        Some(ConnectStep::StopReader)
    } else if r.failure is None && 0 <= r.next < r.steps.len() {
        Some(r.steps[r.next])
    } else {
        None
    }
}

/// The connect `r` once the outcome of its current step is recorded:
/// `failed` holds the reason if the step failed.
///
/// A step that succeeds is followed by the next one. The first step that
/// fails ends the connect with the error of that step; if the reader was
/// started before, it is stopped first. How stopping the reader went is of
/// no account, and a connect that has ended stays as it is.
pub open spec fn step_recorded(r: ConnectRunView, failed: Option<Seq<char>>) -> ConnectRunView {
    if r.stopping {
        ConnectRunView { stopping: false, ..r }
    } else if r.failure is None && 0 <= r.next < r.steps.len() {
        match failed {
            None => ConnectRunView { next: r.next + 1, ..r },
            Some(reason) => ConnectRunView {
                failure: Some(step_error(r.steps[r.next], reason)),
                stopping: reader_started(r.steps, r.next),
                ..r
            },
        }
    } else {
        r
    }
}

/// The connect `r` after the outcomes `outcomes` of its steps have been
/// recorded in turn.
pub open spec fn run_after(r: ConnectRunView, outcomes: Seq<Option<Seq<char>>>) -> ConnectRunView
    decreases outcomes.len(),
{
    if outcomes.len() == 0 {
        r
    } else {
        run_after(step_recorded(r, outcomes[0]), outcomes.drop_first())
    }
}

/// The steps that the connect `r` performs while the outcomes `outcomes`
/// are recorded in turn.
pub open spec fn steps_performed(r: ConnectRunView, outcomes: Seq<Option<Seq<char>>>) -> Seq<
    ConnectStep,
>
    decreases outcomes.len(),
{
    if outcomes.len() == 0 {
        Seq::empty()
    } else {
        match step_now(r) {
            Some(step) => seq![step] + steps_performed(
                step_recorded(r, outcomes[0]),
                outcomes.drop_first(),
            ),
            None => Seq::empty(),
        }
    }
}

/// What a connect in the state `r` returns once it has ended.
pub open spec fn run_outcome(r: ConnectRunView) -> Result<(), (ErrorKind, Seq<char>)> {
    match r.failure {
        Some(e) => Err(e),
        None => Ok(()),
    }
}

/// A connect under way: the steps of its plan and how far it has come.
pub struct ConnectRun {
    steps: Vec<ConnectStep>,
    next: usize,
    stopping: bool,
    failure: Option<SshError>,
}

impl View for ConnectRun {
    type V = ConnectRunView;

    closed spec fn view(&self) -> ConnectRunView {
        ConnectRunView {
            steps: self.steps@,
            next: self.next as int,
            stopping: self.stopping,
            failure: match self.failure {
                Some(e) => Some(e@),
                None => None,
            },
        }
    }
}

impl ConnectRun {
    /// The step to perform now, or `None` when the connect has ended.
    pub fn current(&self) -> (step: Option<ConnectStep>)
        ensures
            step == step_now(self@),
    {
        if self.stopping {
            Some(ConnectStep::StopReader)
        } else if self.failure.is_none() && self.next < self.steps.len() {
            Some(self.steps[self.next])
        } else {
            None
        }
    }

    /// Takes note of how the current step went (`Some` with the reason if
    /// it failed) and moves on.
    pub fn record(&mut self, failed: Option<&str>)
        ensures
            final(self)@ == step_recorded(
                old(self)@,
                match failed {
                    Some(reason) => Some(reason@),
                    None => None,
                },
            ),
    {
        if self.stopping {
            self.stopping = false;
        } else if self.failure.is_none() && self.next < self.steps.len() {
            match failed {
                None => {
                    self.next = self.next + 1;
                },
                Some(reason) => {
                    let mut started = false;
                    let mut j: usize = 0;
                    while j < self.next
                        invariant
                            j <= self.next < self.steps.len(),
                            started == reader_started(self.steps@, j as int),
                        decreases self.next - j,
                    {
                        if self.steps[j] == ConnectStep::SpawnReader {
                            started = true;
                        }
                        j = j + 1;
                    }
                    self.failure = Some(step_failure(self.steps[self.next], reason));
                    self.stopping = started;
                },
            }
        }
    }

    /// What the connect returns once it has ended: success, or the error
    /// of the step that failed.
    pub fn outcome(&self) -> (r: Result<(), SshError>)
        ensures
            match r {
                Ok(_) => run_outcome(self@) is Ok,
                Err(e) => run_outcome(self@) == Err::<(), (ErrorKind, Seq<char>)>(e@),
            },
    {
        match &self.failure {
            Some(e) => Err(SshError::new(e.kind(), e.detail().clone())),
            None => Ok(()),
        }
    }
}

impl ConnectPlan {
    /// The steps of this connect, in order.
    pub fn steps(&self) -> (v: Vec<ConnectStep>)
        ensures
            v@ == steps_of(self@.jump is Some),
    {
        let mut v: Vec<ConnectStep> = Vec::new();
        if self.jump.is_some() {
            v.push(ConnectStep::JumpTcpConnect);
            v.push(ConnectStep::JumpHandshake);
            v.push(ConnectStep::JumpAuthenticate);
            v.push(ConnectStep::JumpConfirm);
            v.push(ConnectStep::OpenTunnel);
        } else {
            v.push(ConnectStep::TcpConnect);
        }
        v.push(ConnectStep::Handshake);
        v.push(ConnectStep::Authenticate);
        v.push(ConnectStep::Confirm);
        v.push(ConnectStep::OpenChannel);
        v.push(ConnectStep::RequestPty);
        v.push(ConnectStep::StartShell);
        v.push(ConnectStep::SetNonBlocking);
        v.push(ConnectStep::AssignId);
        v.push(ConnectStep::SpawnReader);
        v.push(ConnectStep::Register);
        assert(v@ =~= steps_of(self@.jump is Some));
        v
    }

    /// This connect, at its first step.
    pub fn run(&self) -> (r: ConnectRun)
        ensures
            r@ == run_of(steps_of(self@.jump is Some)),
    {
        ConnectRun { steps: self.steps(), next: 0, stopping: false, failure: None }
    }
}

/// The error that a connect returns when `step` fails for `reason`.
pub fn step_failure(step: ConnectStep, reason: &str) -> (e: SshError)
    ensures
        e@ == step_error(step, reason@),
{
    let lead = match step {
        ConnectStep::JumpTcpConnect => "Jump host TCP connect failed: ",
        ConnectStep::JumpHandshake => "Jump host SSH handshake failed: ",
        ConnectStep::JumpAuthenticate => "Jump host rejected the login: ",
        ConnectStep::JumpConfirm => "Jump host session is not authenticated",
        ConnectStep::OpenTunnel => "Tunnel through jump host failed: ",
        ConnectStep::TcpConnect => "TCP connect failed: ",
        ConnectStep::Handshake => "SSH handshake failed: ",
        ConnectStep::Authenticate => "",
        ConnectStep::Confirm => "Session is not authenticated",
        ConnectStep::OpenChannel => "Channel open failed: ",
        ConnectStep::RequestPty => "PTY request failed: ",
        ConnectStep::StartShell => "Shell start failed: ",
        ConnectStep::SetNonBlocking => "Switching to non-blocking mode failed: ",
        ConnectStep::AssignId => "Channel id assignment failed: ",
        ConnectStep::SpawnReader => "Reader start failed: ",
        ConnectStep::Register => "Registration failed: ",
        ConnectStep::StopReader => "Reader stop failed: ",
    };
    proof {
        reveal_strlit("");
        assert(""@ =~= Seq::<char>::empty());
    }
    let detail = describe(lead, reason);
    match step {
        ConnectStep::JumpAuthenticate
        | ConnectStep::JumpConfirm
        | ConnectStep::Authenticate
        | ConnectStep::Confirm => SshError::AuthFailed(detail),
        ConnectStep::RequestPty | ConnectStep::StartShell => SshError::ChannelError(detail),
        _ => SshError::ConnectionFailed(detail),
    }
}

/// The order of every connect: first the transport, which with a jump
/// host ends in the tunnel; then handshake, login and its confirmation;
/// then the channel, the terminal and the shell; then non-blocking mode, the
/// channel id, the reader, and last of all the entry in the registry.
pub proof fn lemma_connect_order(via_jump: bool)
    ensures
        steps_of(via_jump).len() == if via_jump {
            15nat
        } else {
            11nat
        },
        steps_of(via_jump)[steps_of(via_jump).len() - 11] == if via_jump {
            ConnectStep::OpenTunnel
        } else {
            ConnectStep::TcpConnect
        },
        steps_of(via_jump)[steps_of(via_jump).len() - 10] == ConnectStep::Handshake,
        steps_of(via_jump)[steps_of(via_jump).len() - 9] == ConnectStep::Authenticate,
        steps_of(via_jump)[steps_of(via_jump).len() - 8] == ConnectStep::Confirm,
        steps_of(via_jump)[steps_of(via_jump).len() - 7] == ConnectStep::OpenChannel,
        steps_of(via_jump)[steps_of(via_jump).len() - 6] == ConnectStep::RequestPty,
        steps_of(via_jump)[steps_of(via_jump).len() - 5] == ConnectStep::StartShell,
        steps_of(via_jump)[steps_of(via_jump).len() - 4] == ConnectStep::SetNonBlocking,
        steps_of(via_jump)[steps_of(via_jump).len() - 3] == ConnectStep::AssignId,
        steps_of(via_jump)[steps_of(via_jump).len() - 2] == ConnectStep::SpawnReader,
        steps_of(via_jump)[steps_of(via_jump).len() - 1] == ConnectStep::Register,
        via_jump ==> steps_of(via_jump).subrange(0, 4) == seq![
            ConnectStep::JumpTcpConnect,
            ConnectStep::JumpHandshake,
            ConnectStep::JumpAuthenticate,
            ConnectStep::JumpConfirm,
        ],
{
    if via_jump {
        assert(steps_of(via_jump).subrange(0, 4) =~= seq![
            ConnectStep::JumpTcpConnect,
            ConnectStep::JumpHandshake,
            ConnectStep::JumpAuthenticate,
            ConnectStep::JumpConfirm,
        ]);
    }
}

/// A connect whose steps all succeed performs them all, in order, and
/// returns success.
pub proof fn lemma_connect_succeeds(steps: Seq<ConnectStep>, outcomes: Seq<Option<Seq<char>>>)
    requires
        outcomes.len() == steps.len(),
        forall|i: int| 0 <= i < outcomes.len() ==> outcomes[i] is None,
    ensures
        steps_performed(run_of(steps), outcomes) == steps,
        run_outcome(run_after(run_of(steps), outcomes)) is Ok,
        step_now(run_after(run_of(steps), outcomes)) is None,
{
    lemma_run_while_succeeding(steps, 0, outcomes);
    assert(steps.subrange(0, steps.len() as int) =~= steps);
}

/// The first step that fails ends the connect: the steps up to it are
/// performed, then the reader is stopped if it was started, nothing else
/// follows, and the connect returns the error of that step.
pub proof fn lemma_connect_fails(
    steps: Seq<ConnectStep>,
    outcomes: Seq<Option<Seq<char>>>,
    at: int,
    reason: Seq<char>,
)
    requires
        0 <= at < steps.len(),
        outcomes.len() >= at + 2,
        forall|i: int| 0 <= i < at ==> outcomes[i] is None,
        outcomes[at] == Some(reason),
    ensures
        steps_performed(run_of(steps), outcomes) == steps.subrange(0, at + 1) + if reader_started(
            steps,
            at,
        ) {
            seq![ConnectStep::StopReader]
        } else {
            Seq::empty()
        },
        run_outcome(run_after(run_of(steps), outcomes)) == Err::<(), (ErrorKind, Seq<char>)>(
            step_error(steps[at], reason),
        ),
        step_now(run_after(run_of(steps), outcomes)) is None,
{
    let head = outcomes.subrange(0, at);
    let tail = outcomes.subrange(at, outcomes.len() as int);
    assert(outcomes =~= head + tail);
    lemma_run_while_succeeding(steps, 0, head);
    let r = ConnectRunView { steps, next: at, stopping: false, failure: None };
    assert forall|i: int| 0 <= i < head.len() implies step_now(
        #[trigger] run_after(run_of(steps), head.subrange(0, i)),
    ) is Some by {
        lemma_run_while_succeeding(steps, 0, head.subrange(0, i));
    }
    lemma_run_append(run_of(steps), head, tail);
    let failed = step_recorded(r, tail[0]);
    let rest = tail.drop_first();
    let stopped = step_recorded(failed, rest[0]);
    lemma_ended_stays(stopped, rest.drop_first());
    assert(steps_performed(stopped, rest.drop_first()) =~= Seq::<ConnectStep>::empty()) by {
        reveal_with_fuel(steps_performed, 2);
    }
    reveal_with_fuel(steps_performed, 3);
    reveal_with_fuel(run_after, 3);
    assert(steps.subrange(0, at) + seq![steps[at]] =~= steps.subrange(0, at + 1));
    assert(steps_performed(r, tail) =~= seq![steps[at]] + if reader_started(steps, at) {
        seq![ConnectStep::StopReader]
    } else {
        Seq::empty()
    });
    assert(steps_performed(run_of(steps), outcomes) =~= steps.subrange(0, at + 1)
        + if reader_started(steps, at) {
        seq![ConnectStep::StopReader]
    } else {
        Seq::empty()
    });
}

/// While every step succeeds, a connect performs its steps one after the
/// other.
proof fn lemma_run_while_succeeding(
    steps: Seq<ConnectStep>,
    from: int,
    outcomes: Seq<Option<Seq<char>>>,
)
    requires
        0 <= from,
        from + outcomes.len() <= steps.len(),
        forall|i: int| 0 <= i < outcomes.len() ==> outcomes[i] is None,
    ensures
        steps_performed(
            ConnectRunView { steps, next: from, stopping: false, failure: None },
            outcomes,
        ) == steps.subrange(from, from + outcomes.len()),
        run_after(ConnectRunView { steps, next: from, stopping: false, failure: None }, outcomes)
            == (ConnectRunView {
            steps,
            next: from + outcomes.len(),
            stopping: false,
            failure: None,
        }),
    decreases outcomes.len(),
{
    let r = ConnectRunView { steps, next: from, stopping: false, failure: None };
    if outcomes.len() == 0 {
        assert(steps_performed(r, outcomes) =~= steps.subrange(from, from + outcomes.len()));
    } else {
        let rest = outcomes.drop_first();
        assert forall|i: int| 0 <= i < rest.len() implies rest[i] is None by {
            assert(outcomes[i + 1] is None);
        }
        lemma_run_while_succeeding(steps, from + 1, rest);
        assert(steps_performed(r, outcomes) =~= steps.subrange(from, from + outcomes.len()));
    }
}

/// Recording outcomes in two parts is recording them all in turn.
proof fn lemma_run_append(
    r: ConnectRunView,
    first: Seq<Option<Seq<char>>>,
    more: Seq<Option<Seq<char>>>,
)
    requires
        forall|i: int| 0 <= i < first.len() ==> step_now(#[trigger] run_after(
            r,
            first.subrange(0, i),
        )) is Some,
    ensures
        run_after(r, first + more) == run_after(run_after(r, first), more),
        steps_performed(r, first + more) == steps_performed(r, first) + steps_performed(
            run_after(r, first),
            more,
        ),
    decreases first.len(),
{
    if first.len() == 0 {
        assert(first + more =~= more);
        assert(steps_performed(r, first + more) =~= steps_performed(r, first) + steps_performed(
            run_after(r, first),
            more,
        ));
    } else {
        let next = step_recorded(r, first[0]);
        assert((first + more).drop_first() =~= first.drop_first() + more);
        assert(first.subrange(0, 0) =~= Seq::<Option<Seq<char>>>::empty());
        assert(step_now(run_after(r, first.subrange(0, 0))) is Some);
        assert forall|i: int| 0 <= i < first.drop_first().len() implies step_now(
            #[trigger] run_after(next, first.drop_first().subrange(0, i)),
        ) is Some by {
            assert(first.subrange(0, i + 1).drop_first() =~= first.drop_first().subrange(0, i));
            assert(first.subrange(0, i + 1)[0] == first[0]);
            assert(step_now(run_after(r, first.subrange(0, i + 1))) is Some);
        }
        lemma_run_append(next, first.drop_first(), more);
        assert(steps_performed(r, first + more) =~= steps_performed(r, first) + steps_performed(
            run_after(r, first),
            more,
        ));
    }
}

/// A connect that has ended stays as it ended.
proof fn lemma_ended_stays(r: ConnectRunView, outcomes: Seq<Option<Seq<char>>>)
    requires
        step_now(r) is None,
    ensures
        run_after(r, outcomes) == r,
    decreases outcomes.len(),
{
    if outcomes.len() > 0 {
        lemma_ended_stays(r, outcomes.drop_first());
    }
}

} // verus!
