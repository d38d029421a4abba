use vstd::prelude::*;

use crate::messages::{ClientMessage, ClientMsg, ServerMessage, ServerMsg, server_event};

verus! {

// ---------------------------------------------------------------------------
// File names
// ---------------------------------------------------------------------------

/// The name of the file at `path`: what follows its last `/`, or all of it
/// when it has none.
pub open spec fn base_name(path: Seq<char>) -> Seq<char>
    decreases path.len(),
{
    if path.len() == 0 {
        path
    } else if path.last() == '/' {
        Seq::empty()
    } else {
        base_name(path.drop_last()).push(path.last())
    }
}

/// When no `/` follows position `i`, the name of the path is the name of its
/// first `i` characters followed by the rest.
proof fn lemma_base_name_split(path: Seq<char>, i: int)
    requires
        0 <= i <= path.len(),
        forall|j: int| i <= j < path.len() ==> path[j] != '/',
    ensures
        base_name(path) == base_name(path.take(i)) + path.subrange(i, path.len() as int),
    decreases path.len(),
{
    if i < path.len() {
        let rest = path.drop_last();
        lemma_base_name_split(rest, i);
        assert(rest.take(i) =~= path.take(i));
        assert(base_name(path.take(i)) + path.subrange(i, path.len() as int) =~= (base_name(
            rest.take(i),
        ) + rest.subrange(i, rest.len() as int)).push(path.last()));
    } else {
        assert(path.take(i) =~= path);
        assert(base_name(path) + path.subrange(i, path.len() as int) =~= base_name(path));
    }
}

/// The name of a path holds no `/` and ends the path, right after a `/` or at its start.
pub proof fn lemma_base_name(path: Seq<char>)
    ensures
        forall|j: int| 0 <= j < base_name(path).len() ==> base_name(path)[j] != '/',
        base_name(path).len() <= path.len(),
        path == path.take(path.len() - base_name(path).len()) + base_name(path),
        base_name(path).len() < path.len() ==> path[path.len() - base_name(path).len() - 1]
            == '/',
    decreases path.len(),
{
    if path.len() > 0 {
        lemma_base_name(path.drop_last());
        let b = base_name(path.drop_last());
        if path.last() != '/' {
            let k = path.len() - base_name(path).len();
            assert(base_name(path) == b.push(path.last()));
            assert(path.drop_last().take(k) =~= path.take(k));
            assert(path =~= path.drop_last().push(path.last()));
            assert(path =~= path.take(k) + base_name(path));
            if base_name(path).len() < path.len() {
                assert(path[path.len() - base_name(path).len() - 1] == path.drop_last()[
                    path.drop_last().len() - b.len() - 1]);
            }
        } else {
            assert(path =~= path.take(path.len() - base_name(path).len()) + base_name(path));
        }
    }
}

/// The name of the file at `path`: what follows its last `/`, or all of it
/// when it has none.
pub fn file_name_of(path: &str) -> (res: String)
    ensures
        res@ == base_name(path@),
{
    let len = path.unicode_len();
    let mut i = len;
    loop
        invariant
            len == path@.len(),
            i <= len,
            forall|j: int| i <= j < len ==> path@[j] != '/',
        ensures
            i <= len,
            forall|j: int| i <= j < len ==> path@[j] != '/',
            i == 0 || path@[i - 1] == '/',
        decreases i,
    {
        if i == 0 {
            break;
        }
        let c = path.get_char(i - 1);
        if c == '/' {
            break;
        }
        i = i - 1;
    }
    proof {
        lemma_base_name_split(path@, i as int);
        if i > 0 {
            assert(path@.take(i as int).last() == '/');
        }
        assert(base_name(path@.take(i as int)) =~= Seq::<char>::empty());
        assert(base_name(path@) =~= path@.subrange(i as int, len as int));
    }
    String::from_str(path.substring_char(i, len))
}

// ---------------------------------------------------------------------------
// Sending a file
// ---------------------------------------------------------------------------

/// What the sending client must do next.
#[derive(Debug, PartialEq, Eq)]
pub enum SendingAction {
    /// Send `init`, then stream the file, then report `secret` to the user; the session is over.
    Upload { init: ClientMessage, secret: String },
    /// Report the server's error `message`; the session is over.
    ReportError { message: String },
    /// Report a message that was not expected here, and read on.
    ReportUnexpected { message: ServerMessage },
    /// Nothing more to do.
    Stop,
}

/// Mathematical value of a [`SendingAction`].
pub enum SendingStep {
    Upload { init: ClientMsg, secret: Seq<char> },
    ReportError { message: Seq<char> },
    ReportUnexpected { message: ServerMsg },
    Stop,
}

impl View for SendingAction {
    type V = SendingStep;

    open spec fn view(&self) -> SendingStep {
        match self {
            SendingAction::Upload { init, secret } => SendingStep::Upload {
                init: init@,
                secret: secret@,
            },
            SendingAction::ReportError { message } => SendingStep::ReportError {
                message: message@,
            },
            SendingAction::ReportUnexpected { message } => SendingStep::ReportUnexpected {
                message: message@,
            },
            SendingAction::Stop => SendingStep::Stop,
        }
    }
}

/// What the sending client does with a server message (or, on `None`, the
/// end of the stream) while `finished` says whether it is done; `now_finished`
/// and `step` are the outcome.
pub open spec fn sending_step(
    finished: bool,
    message: Option<ServerMsg>,
    now_finished: bool,
    step: SendingStep,
) -> bool {
    if finished {
        now_finished && step == SendingStep::Stop
    } else {
        match message {
            None => now_finished && step == SendingStep::Stop,
            Some(ServerMsg::AcceptFileUpload { secret }) => now_finished && step
                == SendingStep::Upload { init: ClientMsg::InitFileUpload { secret }, secret },
            Some(ServerMsg::Error(m)) => now_finished && step == SendingStep::ReportError {
                message: m,
            },
            Some(other) => !now_finished && step == SendingStep::ReportUnexpected {
                message: other,
            },
        }
    }
}

/// The decisions of a client that sends the file `file` to the server.
pub struct SendingSession {
    file: String,
    finished: bool,
}

impl SendingSession {
    /// Name of the file being sent.
    pub closed spec fn spec_file(&self) -> Seq<char> {
        self.file@
    }

    /// Whether the session is over.
    pub closed spec fn spec_finished(&self) -> bool {
        self.finished
    }

    /// A session for sending the file named `file`.
    pub fn new(file: String) -> (res: SendingSession)
        ensures
            res.spec_file() == file@,
            !res.spec_finished(),
    {
        SendingSession { file, finished: false }
    }

    /// Whether the session is over.
    pub fn is_finished(&self) -> (res: bool)
        ensures
            res == self.spec_finished(),
    {
        self.finished
    }

    /// The messages that open the conversation: a greeting, then the request
    /// to upload the file under its own name (the last component of its path).
    pub fn opening(&self) -> (res: Vec<ClientMessage>)
        ensures
            res@.len() == 2,
            res@[0]@ == ClientMsg::Hello,
            res@[1]@ == (ClientMsg::RequestFileUpload { nome: base_name(self.spec_file()) }),
    {
        let mut res = Vec::new();
        res.push(ClientMessage::Hello);
        res.push(ClientMessage::RequestFileUpload { nome: file_name_of(self.file.as_str()) });
        res
    }

    /// Handles the next message from the server, or the end of its stream (`None`).
    pub fn on_message(&mut self, message: Option<ServerMessage>) -> (res: SendingAction)
        ensures
            sending_step(
                old(self).spec_finished(),
                server_event(message),
                final(self).spec_finished(),
                res@,
            ),
            final(self).spec_file() == old(self).spec_file(),
    {
        if self.finished {
            return SendingAction::Stop;
        }
        match message {
            None => {
                self.finished = true;
                SendingAction::Stop
            },
            Some(ServerMessage::AcceptFileUpload { secret }) => {
                self.finished = true;
                let init = ClientMessage::InitFileUpload { secret: secret.clone() };
                SendingAction::Upload { init, secret }
            },
            Some(ServerMessage::Error(message)) => {
                self.finished = true;
                SendingAction::ReportError { message }
            },
            Some(other) => SendingAction::ReportUnexpected { message: other },
        }
    }
}

// ---------------------------------------------------------------------------
// Fetching a file
// ---------------------------------------------------------------------------

/// Where a fetching client stands.
#[derive(Debug, PartialEq, Eq)]
pub enum FetchingState {
    /// Waiting for the server to accept the download.
    AwaitingAccept,
    /// Writing the chunks of the file named `file_name`.
    Receiving { file_name: String },
    /// The session is over.
    Done,
}

/// Mathematical value of a [`FetchingState`].
pub enum FetchingPhase {
    AwaitingAccept,
    Receiving { file_name: Seq<char> },
    Done,
}

impl View for FetchingState {
    type V = FetchingPhase;

    open spec fn view(&self) -> FetchingPhase {
        match self {
            FetchingState::AwaitingAccept => FetchingPhase::AwaitingAccept,
            FetchingState::Receiving { file_name } => FetchingPhase::Receiving {
                file_name: file_name@,
            },
            FetchingState::Done => FetchingPhase::Done,
        }
    }
}

/// What the fetching client must do next.
#[derive(Debug, PartialEq, Eq)]
pub enum FetchingAction {
    /// Open (creating it if needed) the file `file_name` in the downloads folder for appending.
    OpenFile { file_name: String },
    /// Append `data` to the file being downloaded.
    AppendData { data: Vec<u8> },
    /// The download is over: tell the user where the file was saved.
    CloseFile,
    /// Report the server's error `message`, then tell the user where the file was saved.
    CloseFileAfterError { message: String },
    /// Report a message that was not expected here, then tell the user where the file was saved.
    CloseFileAfterUnexpected { message: ServerMessage },
    /// Report the server's error `message`; the session is over.
    ReportError { message: String },
    /// Report a message that was not expected here, and read on.
    ReportUnexpected { message: ServerMessage },
    /// Nothing more to do.
    Stop,
}

/// Mathematical value of a [`FetchingAction`].
pub enum FetchingStep {
    OpenFile { file_name: Seq<char> },
    AppendData { data: Seq<u8> },
    CloseFile,
    CloseFileAfterError { message: Seq<char> },
    CloseFileAfterUnexpected { message: ServerMsg },
    ReportError { message: Seq<char> },
    ReportUnexpected { message: ServerMsg },
    Stop,
}

impl View for FetchingAction {
    type V = FetchingStep;

    open spec fn view(&self) -> FetchingStep {
        match self {
            FetchingAction::OpenFile { file_name } => FetchingStep::OpenFile {
                file_name: file_name@,
            },
            FetchingAction::AppendData { data } => FetchingStep::AppendData { data: data@ },
            FetchingAction::CloseFile => FetchingStep::CloseFile,
            FetchingAction::CloseFileAfterError { message } => FetchingStep::CloseFileAfterError {
                message: message@,
            },
            FetchingAction::CloseFileAfterUnexpected { message } =>
                FetchingStep::CloseFileAfterUnexpected { message: message@ },
            FetchingAction::ReportError { message } => FetchingStep::ReportError {
                message: message@,
            },
            FetchingAction::ReportUnexpected { message } => FetchingStep::ReportUnexpected {
                message: message@,
            },
            FetchingAction::Stop => FetchingStep::Stop,
        }
    }
}

/// What the fetching client does with a server message (or, on `None`, the
/// end of the stream) in phase `old`; `new` and `step` are the outcome.
pub open spec fn fetching_step(
    old: FetchingPhase,
    message: Option<ServerMsg>,
    new: FetchingPhase,
    step: FetchingStep,
) -> bool {
    match old {
        FetchingPhase::AwaitingAccept => match message {
            None => new == FetchingPhase::Done && step == FetchingStep::Stop,
            Some(ServerMsg::AcceptFileDownload { nome, .. }) => new == FetchingPhase::Receiving {
                file_name: nome,
            } && step == FetchingStep::OpenFile { file_name: nome },
            Some(ServerMsg::FinalizeDownload) => new == FetchingPhase::Done && step
                == FetchingStep::Stop,
            Some(ServerMsg::Error(m)) => new == FetchingPhase::Done && step
                == FetchingStep::ReportError { message: m },
            Some(other) => new == FetchingPhase::AwaitingAccept && step
                == FetchingStep::ReportUnexpected { message: other },
        },
        FetchingPhase::Receiving { .. } => match message {
            None => new == FetchingPhase::Done && step == FetchingStep::CloseFile,
            Some(ServerMsg::ContinueFileDownload(data)) => new == old && step
                == FetchingStep::AppendData { data },
            Some(ServerMsg::FinalizeDownload) => new == FetchingPhase::Done && step
                == FetchingStep::CloseFile,
            Some(ServerMsg::Error(m)) => new == FetchingPhase::Done && step
                == FetchingStep::CloseFileAfterError { message: m },
            Some(other) => new == FetchingPhase::Done && step
                == FetchingStep::CloseFileAfterUnexpected { message: other },
        },
        FetchingPhase::Done => new == FetchingPhase::Done && step == FetchingStep::Stop,
    }
}

/// The decisions of a client that fetches the file stored under `secret`.
pub struct FetchingSession {
    secret: String,
    state: FetchingState,
}

impl View for FetchingSession {
    type V = FetchingPhase;

    closed spec fn view(&self) -> FetchingPhase {
        self.state@
    }
}

impl FetchingSession {
    /// The secret the file is requested with.
    pub closed spec fn spec_secret(&self) -> Seq<char> {
        self.secret@
    }

    /// A session for fetching the file stored under `secret`.
    pub fn new(secret: String) -> (res: FetchingSession)
        ensures
            res.spec_secret() == secret@,
            res@ == FetchingPhase::AwaitingAccept,
    {
        FetchingSession { secret, state: FetchingState::AwaitingAccept }
    }

    /// Whether the session is over.
    pub fn is_done(&self) -> (res: bool)
        ensures
            res <==> self@ is Done,
    {
        match self.state {
            FetchingState::Done => true,
            _ => false,
        }
    }

    /// The phase the session is in.
    pub fn state(&self) -> (res: &FetchingState)
        ensures
            res@ == self@,
    {
        &self.state
    }

    /// The messages that open the conversation: a greeting, then the request
    /// for the file stored under the secret.
    pub fn opening(&self) -> (res: Vec<ClientMessage>)
        ensures
            res@.len() == 2,
            res@[0]@ == ClientMsg::Hello,
            res@[1]@ == (ClientMsg::RequestFileDownload { secret: self.spec_secret() }),
    {
        let mut res = Vec::new();
        res.push(ClientMessage::Hello);
        res.push(ClientMessage::RequestFileDownload { secret: self.secret.clone() });
        res
    }

    /// Handles the next message from the server, or the end of its stream (`None`).
    pub fn on_message(&mut self, message: Option<ServerMessage>) -> (res: FetchingAction)
        ensures
            fetching_step(old(self)@, server_event(message), final(self)@, res@),
            final(self).spec_secret() == old(self).spec_secret(),
    {
        let mut state = FetchingState::Done;
        std::mem::swap(&mut state, &mut self.state);
        match state {
            FetchingState::AwaitingAccept => match message {
                None => FetchingAction::Stop,
                Some(ServerMessage::AcceptFileDownload { nome, .. }) => {
                    self.state = FetchingState::Receiving { file_name: nome.clone() };
                    FetchingAction::OpenFile { file_name: nome }
                },
                Some(ServerMessage::FinalizeDownload) => FetchingAction::Stop,
                Some(ServerMessage::Error(message)) => FetchingAction::ReportError { message },
                Some(other) => {
                    self.state = FetchingState::AwaitingAccept;
                    FetchingAction::ReportUnexpected { message: other }
                },
            },
            FetchingState::Receiving { file_name } => match message {
                None => FetchingAction::CloseFile,
                Some(ServerMessage::ContinueFileDownload(data)) => {
                    self.state = FetchingState::Receiving { file_name };
                    FetchingAction::AppendData { data }
                },
                Some(ServerMessage::FinalizeDownload) => FetchingAction::CloseFile,
                Some(ServerMessage::Error(message)) => FetchingAction::CloseFileAfterError {
                    message,
                },
                Some(other) => FetchingAction::CloseFileAfterUnexpected { message: other },
            },
            FetchingState::Done => FetchingAction::Stop,
        }
    }
}

/// Where a downloaded file named `file_name` is saved, under the home folder `home`.
pub open spec fn download_path_of(home: Seq<char>, file_name: Seq<char>) -> Seq<char> {
    home + "/Downloads/"@ + file_name
}

/// Where a downloaded file named `file_name` is saved, under the home folder `home`.
pub fn download_path(home: &str, file_name: &str) -> (res: String)
    ensures
        res@ == download_path_of(home@, file_name@),
{
    String::from_str(home).concat("/Downloads/").concat(file_name)
}


/// Once a session is over it stays over, whatever the server sends next, and
/// there is nothing left to do.
pub proof fn lemma_sessions_end_for_good(
    message: Option<ServerMsg>,
    now_finished: bool,
    sending: SendingStep,
    new: FetchingPhase,
    fetching: FetchingStep,
)
    ensures
        sending_step(true, message, now_finished, sending) ==> now_finished && sending
            == SendingStep::Stop,
        fetching_step(FetchingPhase::Done, message, new, fetching) ==> new == FetchingPhase::Done
            && fetching == FetchingStep::Stop,
{
}

} // verus!
