use vstd::prelude::*;

use crate::messages::{ClientMessage, ClientMsg, FileData, FileRecord, ServerMessage, ServerMsg, client_event};
use crate::stream::{FileStream, concat, lemma_stream_bounds, lemma_transfer_chunks_rebuild, transfer_chunk, transfer_chunk_count, transfer_chunk_size};

verus! {

/// Number of characters of the secret a stored file is fetched with.
pub const SECRET_LEN: usize = 7;

/// An ASCII letter or digit.
pub open spec fn is_alphanumeric(c: char) -> bool {
    ('A' <= c && c <= 'Z') || ('a' <= c && c <= 'z') || ('0' <= c && c <= '9')
}

/// A secret as the server hands them out: seven ASCII letters or digits.
pub open spec fn is_secret(s: Seq<char>) -> bool {
    s.len() == SECRET_LEN && forall|i: int| 0 <= i < s.len() ==> is_alphanumeric(#[trigger] s[i])
}

/// Calls `rand::Rng::sample` with `rand::distributions::Alphanumeric` on
/// `rand::thread_rng()`, turning the sampled byte into a `char`. Claimed, as
/// the crate documents and its source shows: the byte is drawn from
/// `A-Z`, `a-z` and `0-9`. Which one is random.
#[verifier::external_body]
fn random_alphanumeric() -> (c: char)
    ensures
        is_alphanumeric(c),
{
    char::from(rand::Rng::sample(&mut rand::thread_rng(), rand::distributions::Alphanumeric))
}

/// Calls `String::push`, which appends one character.
#[verifier::external_body]
fn push_char(s: &mut String, c: char)
    ensures
        final(s)@ == old(s)@.push(c),
{
    s.push(c);
}

/// A fresh random secret for a new upload.
pub fn generate_secret() -> (res: String)
    ensures
        is_secret(res@),
{
    let mut secret = String::new();
    let mut i: usize = 0;
    while i < SECRET_LEN
        invariant
            i <= SECRET_LEN,
            secret@.len() == i,
            forall|j: int| 0 <= j < i ==> is_alphanumeric(#[trigger] secret@[j]),
        decreases SECRET_LEN - i,
    {
        let c = random_alphanumeric();
        push_char(&mut secret, c);
        i = i + 1;
    }
    secret
}

/// Where the encrypted contents of the file with `secret` are stored.
pub open spec fn stored_path_of(secret: Seq<char>) -> Seq<char> {
    "./files/"@ + secret
}

/// Where the plaintext of the file with `secret` is kept while it is uploaded or downloaded.
pub open spec fn temp_path_of(secret: Seq<char>) -> Seq<char> {
    "/tmp/"@ + secret
}

/// Where the encrypted contents of the file with `secret` are stored.
pub fn stored_path(secret: &str) -> (res: String)
    ensures
        res@ == stored_path_of(secret@),
{
    String::from_str("./files/").concat(secret)
}

/// Where the plaintext of the file with `secret` is kept while it is uploaded or downloaded.
pub fn temp_path(secret: &str) -> (res: String)
    ensures
        res@ == temp_path_of(secret@),
{
    String::from_str("/tmp/").concat(secret)
}


/// The message the server answers with when it cannot reserve a secret.
pub open spec fn upload_error_text() -> Seq<char> {
    "Erro ao criar arquivo"@
}

/// The message the server answers with when no file is stored under a secret.
pub open spec fn download_error_text() -> Seq<char> {
    "Erro ao achar arquivo"@
}

/// The file-transfer server. It holds no state of its own: each connection
/// is driven by a [`ServerSession`].
#[derive(Debug, Clone)]
pub struct Server {}

impl Server {
    /// A new server.
    pub fn new() -> (res: Server) {
        Server {}
    }

    /// A session for a connection that has just been accepted.
    pub fn session(&self) -> (res: ServerSession)
        ensures
            res@ == ServerPhase::AwaitingCommand,
    {
        ServerSession::new()
    }
}

/// The message that starts a download: the file's name, its length, and how
/// many chunk messages follow (`file_length / 1024 + 1`).
pub fn accept_download(file_name: String, file_length: u64) -> (res: ServerMessage)
    ensures
        res@ == (ServerMsg::AcceptFileDownload {
            nome: file_name@,
            tamanho: file_length,
            chunks: transfer_chunk_count(file_length as nat) as u64,
        }),
{
    ServerMessage::AcceptFileDownload {
        nome: file_name,
        tamanho: file_length,
        chunks: file_length / 1024 + 1,
    }
}

/// One move of a download: send a message, or read the next `usize` bytes of
/// the file and send them as a chunk, or nothing more to do.
#[derive(Debug, PartialEq, Eq)]
pub enum DownloadStep {
    Send(ServerMessage),
    ReadChunk(usize),
    Done,
}

/// Mathematical value of a [`DownloadStep`].
pub enum DownloadMove {
    Send(ServerMsg),
    ReadChunk(nat),
    Done,
}

impl View for DownloadStep {
    type V = DownloadMove;

    open spec fn view(&self) -> DownloadMove {
        match self {
            DownloadStep::Send(m) => DownloadMove::Send(m@),
            DownloadStep::ReadChunk(n) => DownloadMove::ReadChunk(*n as nat),
            DownloadStep::Done => DownloadMove::Done,
        }
    }
}

/// Everything a download of a file named `file_name` of `file_length` bytes
/// sends, in order: the announcement, one chunk per entry of the chunk plan,
/// then the end of the download.
pub open spec fn download_plan(file_name: Seq<char>, file_length: u64) -> Seq<DownloadMove> {
    let count = transfer_chunk_count(file_length as nat);
    seq![
        DownloadMove::Send(
            ServerMsg::AcceptFileDownload {
                nome: file_name,
                tamanho: file_length,
                chunks: count as u64,
            },
        ),
    ] + Seq::new(
        count,
        |i: int| DownloadMove::ReadChunk(transfer_chunk_size(file_length as nat, i as nat)),
    ) + seq![DownloadMove::Send(ServerMsg::FinalizeDownload)]
}

/// The moves of a download of a file: announced with its name, length and
/// `chunks` count, followed by exactly `chunks` chunks of at most 1024 bytes
/// each, which read one after the other give back the whole file, then the end
/// of the download.
pub proof fn lemma_download_plan(file_name: Seq<char>, content: Seq<u8>)
    requires
        content.len() <= u64::MAX,
    ensures
        ({
            let len = content.len() as u64;
            let plan = download_plan(file_name, len);
            let count = transfer_chunk_count(content.len());
            &&& plan.len() == count + 2
            &&& plan[0] == DownloadMove::Send(
                ServerMsg::AcceptFileDownload { nome: file_name, tamanho: len, chunks: count as u64 },
            )
            &&& forall|i: int|
                1 <= i <= count ==> plan[i] == DownloadMove::ReadChunk(
                    #[trigger] transfer_chunk(content, (i - 1) as nat).len(),
                )
            &&& forall|i: nat| i < count ==> #[trigger] transfer_chunk(content, i).len() <= 1024
            &&& plan[count + 1int] == DownloadMove::Send(ServerMsg::FinalizeDownload)
            &&& concat(Seq::new(count, |i: int| transfer_chunk(content, i as nat))) == content
        }),
{
    lemma_transfer_chunks_rebuild(content);
}

/// Drives the sending of one file to a client: what to send, in order.
pub struct DownloadStream {
    file_name: String,
    stream: FileStream,
    announced: bool,
    finished: bool,
}

impl DownloadStream {
    /// Name the file is sent under.
    pub closed spec fn spec_file_name(&self) -> Seq<char> {
        self.file_name@
    }

    /// Length of the file being sent.
    pub closed spec fn spec_file_length(&self) -> u64 {
        self.stream.spec_file_length() as u64
    }

    /// How many moves of the download plan have been handed out.
    pub closed spec fn spec_taken(&self) -> nat {
        (if self.announced { 1nat } else { 0nat }) + self.stream.spec_chunks_sent() + (if self.finished {
            1nat
        } else {
            0nat
        })
    }

    /// The moves handed out so far are the first ones of the plan.
    pub closed spec fn wf(&self) -> bool {
        &&& self.stream.wf()
        &&& self.stream.spec_file_length() <= u64::MAX
        &&& !self.announced ==> self.stream.spec_chunks_sent() == 0
        &&& self.finished ==> self.announced && self.stream.spec_chunks_left() == 0
    }

    /// Starts sending a file named `file_name` of `file_length` bytes.
    pub fn new(file_name: String, file_length: u64) -> (res: DownloadStream)
        ensures
            res.wf(),
            res.spec_file_name() == file_name@,
            res.spec_file_length() == file_length,
            res.spec_taken() == 0,
    {
        DownloadStream {
            file_name,
            stream: FileStream::new(file_length),
            announced: false,
            finished: false,
        }
    }

    /// The next move of the download plan, or `Done` once all of it has been handed out.
    pub fn next_step(&mut self) -> (res: DownloadStep)
        requires
            old(self).wf(),
        ensures
            final(self).wf(),
            final(self).spec_file_name() == old(self).spec_file_name(),
            final(self).spec_file_length() == old(self).spec_file_length(),
            old(self).spec_taken() < download_plan(
                old(self).spec_file_name(),
                old(self).spec_file_length(),
            ).len() ==> res@ == download_plan(
                old(self).spec_file_name(),
                old(self).spec_file_length(),
            )[old(self).spec_taken() as int] && final(self).spec_taken() == old(self).spec_taken()
                + 1,
            old(self).spec_taken() >= download_plan(
                old(self).spec_file_name(),
                old(self).spec_file_length(),
            ).len() ==> res@ == DownloadMove::Done && final(self).spec_taken()
                == old(self).spec_taken(),
    {
        proof {
            lemma_stream_bounds(self.stream);
        }
        let ghost name = self.file_name@;
        let ghost len = self.stream.spec_file_length() as u64;
        let ghost plan = download_plan(name, len);
        let ghost count = transfer_chunk_count(len as nat);
        if !self.announced {
            self.announced = true;
            let m = accept_download(self.file_name.clone(), self.stream.file_length());
            assert(plan[0] == DownloadMove::Send(m@));
            return DownloadStep::Send(m);
        }
        let ghost sent = self.stream.spec_chunks_sent();
        match self.stream.next_chunk() {
            Some(size) => {
                proof {
                    lemma_stream_bounds(self.stream);
                    assert(plan[1 + sent as int] == DownloadMove::ReadChunk(
                        transfer_chunk_size(len as nat, sent),
                    ));
                }
                DownloadStep::ReadChunk(size)
            },
            None => {
                if !self.finished {
                    self.finished = true;
                    assert(plan[1 + count as int] == DownloadMove::Send(ServerMsg::FinalizeDownload));
                    DownloadStep::Send(ServerMessage::FinalizeDownload)
                } else {
                    DownloadStep::Done
                }
            },
        }
    }
}

/// Where a connection stands.
#[derive(Debug, PartialEq, Eq)]
pub enum ServerState {
    /// Waiting for the next request.
    AwaitingCommand,
    /// A secret was drawn for the upload of `file_name`; waiting to learn
    /// whether a stored file already uses it.
    CheckingSecret { secret: String, file_name: String },
    /// Receiving the chunks of the file uploaded under `secret`.
    ReceivingUpload { secret: String },
    /// Waiting for the record of the file requested with `secret`.
    AwaitingRecord { secret: String },
    /// The connection is over.
    Closed,
}

/// Mathematical value of a [`ServerState`].
pub enum ServerPhase {
    AwaitingCommand,
    CheckingSecret { secret: Seq<char>, file_name: Seq<char> },
    ReceivingUpload { secret: Seq<char> },
    AwaitingRecord { secret: Seq<char> },
    Closed,
}

impl View for ServerState {
    type V = ServerPhase;

    open spec fn view(&self) -> ServerPhase {
        match self {
            ServerState::AwaitingCommand => ServerPhase::AwaitingCommand,
            ServerState::CheckingSecret { secret, file_name } => ServerPhase::CheckingSecret {
                secret: secret@,
                file_name: file_name@,
            },
            ServerState::ReceivingUpload { secret } => ServerPhase::ReceivingUpload {
                secret: secret@,
            },
            ServerState::AwaitingRecord { secret } => ServerPhase::AwaitingRecord {
                secret: secret@,
            },
            ServerState::Closed => ServerPhase::Closed,
        }
    }
}

/// What the connection handler must do next.
#[derive(Debug, PartialEq, Eq)]
pub enum ServerAction {
    /// Nothing: read the next message.
    Continue,
    /// Look up whether a stored file already uses `secret`, and report it with
    /// [`ServerSession::on_secret_checked`].
    CheckSecret { secret: String },
    /// Save `record`, then send `reply`.
    StoreAndAccept { record: FileData, reply: ServerMessage },
    /// Send `reply`, then close the connection.
    RejectAndClose { reply: ServerMessage },
    /// Open (creating it if needed) the file at `temp_path` for appending.
    OpenUpload { temp_path: String },
    /// Append `data` to the file being uploaded.
    AppendUpload { data: Vec<u8> },
    /// Encrypt the file at `temp_path` under `password` into `stored_path`,
    /// then remove `temp_path`.
    FinishUpload { temp_path: String, stored_path: String, password: String },
    /// Look up the record stored under `secret`, and report it with
    /// [`ServerSession::on_record`].
    LookupRecord { secret: String },
    /// Decrypt `stored_path` with `password` into `temp_path`, send it in
    /// chunks as `file_name`, then remove `temp_path`.
    SendDownload { stored_path: String, temp_path: String, password: String, file_name: String },
    /// Close the connection.
    Close,
}

/// Mathematical value of a [`ServerAction`].
pub enum ServerStep {
    Continue,
    CheckSecret { secret: Seq<char> },
    StoreAndAccept { record: FileRecord, reply: ServerMsg },
    RejectAndClose { reply: ServerMsg },
    OpenUpload { temp_path: Seq<char> },
    AppendUpload { data: Seq<u8> },
    FinishUpload { temp_path: Seq<char>, stored_path: Seq<char>, password: Seq<char> },
    LookupRecord { secret: Seq<char> },
    SendDownload {
        stored_path: Seq<char>,
        temp_path: Seq<char>,
        password: Seq<char>,
        file_name: Seq<char>,
    },
    Close,
}

impl View for ServerAction {
    type V = ServerStep;

    open spec fn view(&self) -> ServerStep {
        match self {
            ServerAction::Continue => ServerStep::Continue,
            ServerAction::CheckSecret { secret } => ServerStep::CheckSecret { secret: secret@ },
            ServerAction::StoreAndAccept { record, reply } => ServerStep::StoreAndAccept {
                record: record@,
                reply: reply@,
            },
            ServerAction::RejectAndClose { reply } => ServerStep::RejectAndClose { reply: reply@ },
            ServerAction::OpenUpload { temp_path } => ServerStep::OpenUpload {
                temp_path: temp_path@,
            },
            ServerAction::AppendUpload { data } => ServerStep::AppendUpload { data: data@ },
            ServerAction::FinishUpload { temp_path, stored_path, password } =>
                ServerStep::FinishUpload {
                temp_path: temp_path@,
                stored_path: stored_path@,
                password: password@,
            },
            ServerAction::LookupRecord { secret } => ServerStep::LookupRecord { secret: secret@ },
            ServerAction::SendDownload { stored_path, temp_path, password, file_name } =>
                ServerStep::SendDownload {
                stored_path: stored_path@,
                temp_path: temp_path@,
                password: password@,
                file_name: file_name@,
            },
            ServerAction::Close => ServerStep::Close,
        }
    }
}

/// What the server does with a message (or, on `None`, the end of the
/// stream) in each phase of a connection, where the new phase and the action
/// are `new` and `step`.
pub open spec fn message_step(
    old: ServerPhase,
    message: Option<ClientMsg>,
    new: ServerPhase,
    step: ServerStep,
) -> bool {
    match old {
        ServerPhase::AwaitingCommand => match message {
            None => new == ServerPhase::Closed && step == ServerStep::Close,
            Some(ClientMsg::RequestFileUpload { nome }) => {
                &&& new matches ServerPhase::CheckingSecret { secret, file_name }
                &&& file_name == nome
                &&& is_secret(secret)
                &&& step == ServerStep::CheckSecret { secret }
            },
            Some(ClientMsg::InitFileUpload { secret }) => new == ServerPhase::ReceivingUpload {
                secret,
            } && step == ServerStep::OpenUpload { temp_path: temp_path_of(secret) },
            Some(ClientMsg::RequestFileDownload { secret }) => new == ServerPhase::AwaitingRecord {
                secret,
            } && step == ServerStep::LookupRecord { secret },
            Some(_) => new == ServerPhase::AwaitingCommand && step == ServerStep::Continue,
        },
        ServerPhase::ReceivingUpload { secret } => match message {
            Some(ClientMsg::ContinueFileUpload(data)) => new == old && step
                == ServerStep::AppendUpload { data },
            _ => new == ServerPhase::AwaitingCommand && step == ServerStep::FinishUpload {
                temp_path: temp_path_of(secret),
                stored_path: stored_path_of(secret),
                password: secret,
            },
        },
        ServerPhase::Closed => new == ServerPhase::Closed && step == ServerStep::Close,
        _ => new == old && step == ServerStep::Continue,
    }
}

/// What the server does once it knows whether the secret drawn for an upload
/// is already `taken`.
pub open spec fn secret_step(old: ServerPhase, taken: bool, new: ServerPhase, step: ServerStep) -> bool {
    match old {
        ServerPhase::CheckingSecret { secret, file_name } => if taken {
            new == ServerPhase::Closed && step == ServerStep::RejectAndClose {
                reply: ServerMsg::Error(upload_error_text()),
            }
        } else {
            new == ServerPhase::AwaitingCommand && step == ServerStep::StoreAndAccept {
                record: FileRecord { secret, file_name, path: stored_path_of(secret) },
                reply: ServerMsg::AcceptFileUpload { secret },
            }
        },
        _ => new == old && step == ServerStep::Continue,
    }
}

/// What the server does with the record found (or not) for a requested secret.
pub open spec fn record_step(
    old: ServerPhase,
    record: Option<FileRecord>,
    new: ServerPhase,
    step: ServerStep,
) -> bool {
    match old {
        ServerPhase::AwaitingRecord { secret } => match record {
            None => new == ServerPhase::Closed && step == ServerStep::RejectAndClose {
                reply: ServerMsg::Error(download_error_text()),
            },
            Some(r) => new == ServerPhase::AwaitingCommand && step == ServerStep::SendDownload {
                stored_path: stored_path_of(secret),
                temp_path: temp_path_of(secret),
                password: secret,
                file_name: r.file_name,
            },
        },
        _ => new == old && step == ServerStep::Continue,
    }
}

/// The decisions of the server on one connection.
pub struct ServerSession {
    state: ServerState,
}

impl View for ServerSession {
    type V = ServerPhase;

    closed spec fn view(&self) -> ServerPhase {
        self.state@
    }
}

impl ServerSession {
    /// A session for a connection that has just been accepted.
    pub fn new() -> (res: ServerSession)
        ensures
            res@ == ServerPhase::AwaitingCommand,
    {
        ServerSession { state: ServerState::AwaitingCommand }
    }

    /// The phase the connection is in.
    pub fn state(&self) -> (res: &ServerState)
        ensures
            res@ == self@,
    {
        &self.state
    }

    /// Whether the connection is over.
    pub fn is_closed(&self) -> (res: bool)
        ensures
            res <==> self@ is Closed,
    {
        match self.state {
            ServerState::Closed => true,
            _ => false,
        }
    }

    /// Handles the next message from the client, or the end of its stream (`None`).
    pub fn on_message(&mut self, message: Option<ClientMessage>) -> (res: ServerAction)
        ensures
            message_step(old(self)@, client_event(message), final(self)@, res@),
    {
        let mut state = ServerState::Closed;
        std::mem::swap(&mut state, &mut self.state);
        match state {
            ServerState::AwaitingCommand => match message {
                None => ServerAction::Close,
                Some(ClientMessage::RequestFileUpload { nome }) => {
                    let secret = generate_secret();
                    let reported = secret.clone();
                    self.state = ServerState::CheckingSecret { secret, file_name: nome };
                    ServerAction::CheckSecret { secret: reported }
                },
                Some(ClientMessage::InitFileUpload { secret }) => {
                    let temp_path = temp_path(secret.as_str());
                    self.state = ServerState::ReceivingUpload { secret };
                    ServerAction::OpenUpload { temp_path }
                },
                Some(ClientMessage::RequestFileDownload { secret }) => {
                    let reported = secret.clone();
                    self.state = ServerState::AwaitingRecord { secret };
                    ServerAction::LookupRecord { secret: reported }
                },
                Some(_) => {
                    self.state = ServerState::AwaitingCommand;
                    ServerAction::Continue
                },
            },
            ServerState::ReceivingUpload { secret } => match message {
                Some(ClientMessage::ContinueFileUpload(data)) => {
                    self.state = ServerState::ReceivingUpload { secret };
                    ServerAction::AppendUpload { data }
                },
                _ => {
                    let temp_path = temp_path(secret.as_str());
                    let stored_path = stored_path(secret.as_str());
                    self.state = ServerState::AwaitingCommand;
                    ServerAction::FinishUpload { temp_path, stored_path, password: secret }
                },
            },
            ServerState::Closed => ServerAction::Close,
            other => {
                self.state = other;
                ServerAction::Continue
            },
        }
    }

    /// Handles the answer to [`ServerAction::CheckSecret`]: whether a stored
    /// file already uses the secret drawn for the upload.
    pub fn on_secret_checked(&mut self, taken: bool) -> (res: ServerAction)
        ensures
            secret_step(old(self)@, taken, final(self)@, res@),
    {
        let mut state = ServerState::Closed;
        std::mem::swap(&mut state, &mut self.state);
        match state {
            ServerState::CheckingSecret { secret, file_name } => {
                if taken {
                    ServerAction::RejectAndClose {
                        reply: ServerMessage::Error(String::from_str("Erro ao criar arquivo")),
                    }
                } else {
                    let path = stored_path(secret.as_str());
                    let reply = ServerMessage::AcceptFileUpload { secret: secret.clone() };
                    self.state = ServerState::AwaitingCommand;
                    ServerAction::StoreAndAccept {
                        record: FileData { secret, fileName: file_name, path },
                        reply,
                    }
                }
            },
            other => {
                self.state = other;
                ServerAction::Continue
            },
        }
    }

    /// Handles the answer to [`ServerAction::LookupRecord`]: the record
    /// stored under the requested secret, if any.
    pub fn on_record(&mut self, record: Option<FileData>) -> (res: ServerAction)
        ensures
            record_step(
                old(self)@,
                match record {
                    Some(r) => Some(r@),
                    None => None,
                },
                final(self)@,
                res@,
            ),
    {
        let mut state = ServerState::Closed;
        std::mem::swap(&mut state, &mut self.state);
        match state {
            ServerState::AwaitingRecord { secret } => match record {
                None => ServerAction::RejectAndClose {
                    reply: ServerMessage::Error(String::from_str("Erro ao achar arquivo")),
                },
                Some(r) => {
                    let stored_path = stored_path(secret.as_str());
                    let temp_path = temp_path(secret.as_str());
                    self.state = ServerState::AwaitingCommand;
                    ServerAction::SendDownload {
                        stored_path,
                        temp_path,
                        password: secret,
                        file_name: r.fileName,
                    }
                },
            },
            other => {
                self.state = other;
                ServerAction::Continue
            },
        }
    }
}


/// Once a connection is closed it stays closed, whatever happens next, and
/// the only thing left to do is to close it.
pub proof fn lemma_closed_is_final(
    message: Option<ClientMsg>,
    taken: bool,
    record: Option<FileRecord>,
    new: ServerPhase,
    step: ServerStep,
)
    ensures
        message_step(ServerPhase::Closed, message, new, step) ==> new == ServerPhase::Closed
            && step == ServerStep::Close,
        secret_step(ServerPhase::Closed, taken, new, step) ==> new == ServerPhase::Closed && step
            == ServerStep::Continue,
        record_step(ServerPhase::Closed, record, new, step) ==> new == ServerPhase::Closed && step
            == ServerStep::Continue,
{
}

/// Distinct secrets are stored at distinct paths, so no upload overwrites another.
pub proof fn lemma_stored_paths_distinct(s1: Seq<char>, s2: Seq<char>)
    ensures
        stored_path_of(s1) == stored_path_of(s2) ==> s1 == s2,
{
    if stored_path_of(s1) == stored_path_of(s2) {
        let p = "./files/"@;
        assert(s1 =~= stored_path_of(s1).skip(p.len() as int));
        assert(s2 =~= stored_path_of(s2).skip(p.len() as int));
    }
}

/// The steps of an accepted upload, of its end and of a later download agree:
/// the record carries the secret the client is told and the name it gave, the
/// upload is stored at the recorded path under that secret, and the download
/// reads that path with that secret and sends the name it finds recorded.
pub open spec fn upload_and_download_agree(
    secret: Seq<char>,
    file_name: Seq<char>,
    accept: ServerStep,
    finish: ServerStep,
    stored: FileRecord,
    send: ServerStep,
) -> bool {
    &&& accept matches ServerStep::StoreAndAccept { record, reply }
    &&& record.secret == secret
    &&& record.file_name == file_name
    &&& reply == (ServerMsg::AcceptFileUpload { secret })
    &&& finish matches ServerStep::FinishUpload { stored_path, password, .. }
    &&& stored_path == record.path
    &&& password == secret
    &&& send matches ServerStep::SendDownload { stored_path: read_path, password: key, file_name: sent, .. }
    &&& read_path == record.path
    &&& key == secret
    &&& sent == stored.file_name
}

/// An accepted upload is recorded under the secret the client is told, with
/// the name the client gave, at the path where the upload under that secret
/// is then stored, encrypted with that secret; a later download of that
/// secret reads the same path with the same secret and sends the recorded name.
pub proof fn lemma_download_reads_upload(
    secret: Seq<char>,
    file_name: Seq<char>,
    accepted: ServerPhase,
    accept: ServerStep,
    end_of_upload: Option<ClientMsg>,
    uploaded: ServerPhase,
    finish: ServerStep,
    stored: FileRecord,
    served: ServerPhase,
    send: ServerStep,
)
    requires
        secret_step(ServerPhase::CheckingSecret { secret, file_name }, false, accepted, accept),
        message_step(ServerPhase::ReceivingUpload { secret }, end_of_upload, uploaded, finish),
        !(end_of_upload matches Some(ClientMsg::ContinueFileUpload(_))),
        record_step(ServerPhase::AwaitingRecord { secret }, Some(stored), served, send),
    ensures
        upload_and_download_agree(secret, file_name, accept, finish, stored, send),
{
}

} // verus!
