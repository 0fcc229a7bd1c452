use vstd::prelude::*;
use vstd::string::*;
use crate::utils::text::concat;

verus! {

/// What kind of prompt greetd sends during authentication.
pub enum AuthMessageType {
    /// Ask for something the user may see, such as a user name.
    Visible,
    /// Ask for a secret, such as a password.
    Secret,
    /// Tell the user something.
    Info,
    /// Tell the user about an error.
    Error,
}

/// What kind of error greetd reports.
pub enum ErrorType {
    /// The credentials were refused.
    AuthError,
    /// Anything else went wrong.
    Error,
}

/// A message the greeter sends to greetd.
pub enum Request {
    /// Start authenticating `username`.
    CreateSession { username: String },
    /// Answer the last prompt (`None` for prompts that need no answer).
    PostAuthMessageResponse { response: Option<String> },
    /// Start the user's session with a command and environment.
    StartSession { cmd: Vec<String>, env: Vec<String> },
    /// Give up the session being authenticated.
    CancelSession,
}

/// A message greetd sends to the greeter.
pub enum Response {
    /// The last request succeeded.
    Success,
    /// The last request failed.
    Error { error_type: ErrorType, description: String },
    /// greetd prompts for or reports something.
    AuthMessage { auth_message_type: AuthMessageType, auth_message: String },
}

/// Why logging in failed: the credentials, or anything else.
pub enum ClientError {
    /// Shown next to the password field.
    Auth(String),
    /// Shown as a system error.
    System(String),
}

/// What the greeter does next during authentication.
pub enum AuthStep {
    /// Send this request and read the next response.
    Send(Request),
    /// The user is authenticated.
    Done,
    /// Authentication failed; when `cancel` is set, first tell greetd to
    /// cancel the session.
    Fail { cancel: bool, error: ClientError },
}

/// The shape of a response, as far as authentication depends on it.
pub enum ResponseKind {
    Success,
    AuthFailure,
    OtherError,
    Visible,
    Secret,
    Info,
    Error,
}

/// The shape of a response.
pub open spec fn response_kind(r: Response) -> ResponseKind {
    match r {
        Response::Success => ResponseKind::Success,
        Response::Error { error_type: ErrorType::AuthError, .. } => ResponseKind::AuthFailure,
        Response::Error { error_type: ErrorType::Error, .. } => ResponseKind::OtherError,
        Response::AuthMessage { auth_message_type: AuthMessageType::Visible, .. } => ResponseKind::Visible,
        Response::AuthMessage { auth_message_type: AuthMessageType::Secret, .. } => ResponseKind::Secret,
        Response::AuthMessage { auth_message_type: AuthMessageType::Info, .. } => ResponseKind::Info,
        Response::AuthMessage { auth_message_type: AuthMessageType::Error, .. } => ResponseKind::Error,
    }
}

/// The shape of what the greeter does next.
pub enum StepKind {
    SendPassword,
    SendUserName,
    SendNothing,
    Done,
    FailAuth,
    FailSystem,
}

/// What authentication does with a response of kind `k` when a secret
/// was (`prompted`) or was not asked for before: the first secret prompt
/// gets the password, a second one ends it as a failed login.
pub open spec fn step_kind(prompted: bool, k: ResponseKind) -> StepKind {
    match k {
        ResponseKind::Success => StepKind::Done,
        ResponseKind::AuthFailure => StepKind::FailAuth,
        ResponseKind::OtherError => StepKind::FailSystem,
        ResponseKind::Visible => StepKind::SendUserName,
        ResponseKind::Secret => if prompted {
            StepKind::FailAuth
        } else {
            StepKind::SendPassword
        },
        ResponseKind::Info => StepKind::SendNothing,
        ResponseKind::Error => StepKind::SendNothing,
    }
}

/// Whether a secret was asked for after a response of kind `k`.
pub open spec fn prompted_after(prompted: bool, k: ResponseKind) -> bool {
    prompted || k == ResponseKind::Secret
}

/// Whether a step ends authentication.
pub open spec fn is_final(s: StepKind) -> bool {
    s == StepKind::Done || s == StepKind::FailAuth || s == StepKind::FailSystem
}

/// The steps authentication takes on the responses `ks`, up to and
/// including the first final one.
pub open spec fn run_steps(prompted: bool, ks: Seq<ResponseKind>) -> Seq<StepKind>
    decreases ks.len(),
{
    if ks.len() == 0 {
        Seq::empty()
    } else {
        let s = step_kind(prompted, ks[0]);
        if is_final(s) {
            seq![s]
        } else {
            seq![s] + run_steps(prompted_after(prompted, ks[0]), ks.drop_first())
        }
    }
}

/// How many of the steps send the password.
pub open spec fn password_sends(steps: Seq<StepKind>) -> nat
    decreases steps.len(),
{
    if steps.len() == 0 {
        0
    } else {
        (if steps[0] == StepKind::SendPassword {
            1nat
        } else {
            0nat
        }) + password_sends(steps.drop_first())
    }
}

/// Law: during one authentication the password is sent at most once, and
/// not at all once a secret was asked for.
pub proof fn lemma_password_sent_at_most_once(prompted: bool, ks: Seq<ResponseKind>)
    ensures
        password_sends(run_steps(prompted, ks)) <= if prompted {
            0nat
        } else {
            1nat
        },
    decreases ks.len(),
{
    if ks.len() > 0 {
        let s = step_kind(prompted, ks[0]);
        if !is_final(s) {
            let rest = run_steps(prompted_after(prompted, ks[0]), ks.drop_first());
            lemma_password_sent_at_most_once(prompted_after(prompted, ks[0]), ks.drop_first());
            let x = seq![s] + rest;
            assert(x.drop_first() =~= rest);
            assert(x[0] == s);
            assert(run_steps(prompted, ks) == x);
            assert(password_sends(x) == (if s == StepKind::SendPassword { 1nat } else { 0nat }) + password_sends(rest));
        } else {
            let x = seq![s];
            assert(x.drop_first() =~= Seq::<StepKind>::empty());
            assert(password_sends(x) == (if s == StepKind::SendPassword { 1nat } else { 0nat }) + password_sends(x.drop_first()));
        }
    }
}

/// A prompt that gets an answer other than the password.
pub open spec fn is_plain_prompt(k: ResponseKind) -> bool {
    k == ResponseKind::Visible || k == ResponseKind::Info || k == ResponseKind::Error
}

/// Law: when greetd asks for a secret a second time, the password is not
/// sent again: the first secret prompt got it, and authentication ends at
/// the second one as a failed login.
pub proof fn lemma_second_secret_fails(ks: Seq<ResponseKind>, i: int, j: int)
    requires
        0 <= i < j < ks.len(),
        ks[i] == ResponseKind::Secret,
        ks[j] == ResponseKind::Secret,
        forall|t: int| 0 <= t < j && t != i ==> is_plain_prompt(#[trigger] ks[t]),
    ensures
        run_steps(false, ks).len() == j + 1,
        run_steps(false, ks)[i] == StepKind::SendPassword,
        run_steps(false, ks)[j] == StepKind::FailAuth,
{
    lemma_second_secret_fails_from(false, ks, i, j);
}

proof fn lemma_second_secret_fails_from(prompted: bool, ks: Seq<ResponseKind>, i: int, j: int)
    requires
        0 <= j < ks.len(),
        i < j,
        prompted ==> i < 0,
        !prompted ==> 0 <= i && ks[i] == ResponseKind::Secret,
        ks[j] == ResponseKind::Secret,
        forall|t: int| 0 <= t < j && t != i ==> is_plain_prompt(#[trigger] ks[t]),
    ensures
        run_steps(prompted, ks).len() == j + 1,
        !prompted ==> run_steps(prompted, ks)[i] == StepKind::SendPassword,
        run_steps(prompted, ks)[j] == StepKind::FailAuth,
    decreases ks.len(),
{
    let s = step_kind(prompted, ks[0]);
    if j > 0 {
        if 0 != i {
            assert(is_plain_prompt(ks[0]));
        }
        assert(!is_final(s));
        let ks2 = ks.drop_first();
        assert forall|t: int| 0 <= t < j - 1 && t != i - 1 implies is_plain_prompt(#[trigger] ks2[t]) by {
            assert(ks2[t] == ks[t + 1]);
        }
        if !prompted && i == 0 {
            lemma_second_secret_fails_from(true, ks2, -1, j - 1);
        } else {
            if !prompted {
                assert(ks2[i - 1] == ks[i]);
            }
            lemma_second_secret_fails_from(prompted, ks2, i - 1, j - 1);
        }
        let rest = run_steps(prompted_after(prompted, ks[0]), ks2);
        assert(run_steps(prompted, ks) == seq![s] + rest);
    }
}

/// The authentication of one user with one password against greetd.
pub struct Authentication {
    /// The user to log in.
    pub username: String,
    /// The password to answer the first secret prompt with.
    pub password: String,
    /// Whether greetd has asked for a secret already.
    pub secret_prompted: bool,
}

/// The message for refused credentials.
pub open spec fn invalid_credentials() -> Seq<char> {
    "Invalid username or password"@
}

/// The message for refused credentials.
fn invalid_credentials_message() -> (r: String)
    ensures
        r@ == invalid_credentials(),
{
    String::from_str("Invalid username or password")
}

impl Authentication {
    /// Starts authenticating: returns the state and the first request to
    /// send, which creates a session for the user.
    pub fn start(username: &str, password: &str) -> (r: (Self, Request))
        ensures
            r.0.username@ == username@,
            r.0.password@ == password@,
            !r.0.secret_prompted,
            r.1 matches Request::CreateSession { username: u } && u@ == username@,
    {
        (
            Authentication {
                username: String::from_str(username),
                password: String::from_str(password),
                secret_prompted: false,
            },
            Request::CreateSession { username: String::from_str(username) },
        )
    }

    /// What to do on the response `resp`: answer a visible prompt with the
    /// user name and the first secret prompt with the password, answer
    /// information and error messages with nothing, succeed on success,
    /// and fail (cancelling the session) on a second secret prompt or an
    /// error.
    pub fn on_response(&mut self, resp: Response) -> (r: AuthStep)
        ensures
            final(self).username == old(self).username,
            final(self).password == old(self).password,
            final(self).secret_prompted == prompted_after(old(self).secret_prompted, response_kind(resp)),
            match step_kind(old(self).secret_prompted, response_kind(resp)) {
                StepKind::SendPassword => r matches AuthStep::Send(
                    Request::PostAuthMessageResponse { response: Some(a) },
                ) && a@ == old(self).password@,
                StepKind::SendUserName => r matches AuthStep::Send(
                    Request::PostAuthMessageResponse { response: Some(a) },
                ) && a@ == old(self).username@,
                StepKind::SendNothing => r matches AuthStep::Send(
                    Request::PostAuthMessageResponse { response: None },
                ),
                StepKind::Done => r is Done,
                StepKind::FailAuth => r matches AuthStep::Fail { cancel: true, error: ClientError::Auth(m) }
                    && m@ == invalid_credentials(),
                StepKind::FailSystem => r matches AuthStep::Fail { cancel: true, error: ClientError::System(m) }
                    && resp matches Response::Error { description: d, .. } && m@ == "greetd error: "@ + d@,
            },
    {
        match resp {
            Response::AuthMessage { auth_message_type, auth_message } => {
                match auth_message_type {
                    AuthMessageType::Secret => {
                        if self.secret_prompted {
                            AuthStep::Fail { cancel: true, error: ClientError::Auth(invalid_credentials_message()) }
                        } else {
                            self.secret_prompted = true;
                            AuthStep::Send(
                                Request::PostAuthMessageResponse { response: Some(self.password.clone()) },
                            )
                        }
                    },
                    AuthMessageType::Visible => AuthStep::Send(
                        Request::PostAuthMessageResponse { response: Some(self.username.clone()) },
                    ),
                    AuthMessageType::Info => AuthStep::Send(Request::PostAuthMessageResponse { response: None }),
                    AuthMessageType::Error => AuthStep::Send(Request::PostAuthMessageResponse { response: None }),
                }
            },
            Response::Success => AuthStep::Done,
            Response::Error { error_type, description } => {
                match error_type {
                    ErrorType::AuthError => AuthStep::Fail {
                        cancel: true,
                        error: ClientError::Auth(invalid_credentials_message()),
                    },
                    ErrorType::Error => AuthStep::Fail {
                        cancel: true,
                        error: ClientError::System(concat("greetd error: ", description.as_str())),
                    },
                }
            },
        }
    }
}

/// What starting the session came to, given greetd's response: success,
/// or a system error telling why.
pub fn session_start_outcome(resp: Response) -> (r: Result<(), ClientError>)
    ensures
        match resp {
            Response::Success => r is Ok,
            Response::Error { description, .. } => r matches Err(ClientError::System(m))
                && m@ == "Failed to start session: "@ + description@,
            Response::AuthMessage { .. } => r matches Err(ClientError::System(m))
                && m@ == "Unexpected AuthMessage when trying to start session"@,
        },
{
    match resp {
        Response::Success => Ok(()),
        Response::Error { description, .. } => Err(
            ClientError::System(concat("Failed to start session: ", description.as_str())),
        ),
        Response::AuthMessage { .. } => Err(
            ClientError::System(String::from_str("Unexpected AuthMessage when trying to start session")),
        ),
    }
}

} // verus!
