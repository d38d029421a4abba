use vstd::prelude::*;
use vstd::slice::slice_subrange;
use vstd::slice::slice_to_vec;

verus! {

/// The byte that ends every message on the wire (`b'\n'`).
pub const DELIMITER: u8 = 10;

/// A message a client sends to the server.
#[derive(Debug, Clone, PartialEq, Eq)]
pub enum ClientMessage {
    /// Opens the conversation.
    Hello,
    /// Asks for the file stored under `secret`.
    RequestFileDownload { secret: String },
    /// Asks to store a file named `nome`; the server answers with a secret.
    RequestFileUpload { nome: String },
    /// Starts sending the contents of the file reserved under `secret`.
    InitFileUpload { secret: String },
    /// One chunk of the file being uploaded.
    ContinueFileUpload(Vec<u8>),
    /// One chunk of a file (not sent by the clients of this project).
    ContinueFileDownload(Vec<u8>),
    /// Ends an upload.
    FinalizeUpload,
    /// Says goodbye.
    Disconnect,
}

/// A message the server sends to a client.
#[derive(Debug, Clone, PartialEq, Eq)]
pub enum ServerMessage {
    /// A download starts: the file's name, its length and the number of chunks that follow.
    AcceptFileDownload { nome: String, tamanho: u64, chunks: u64 },
    /// One chunk of the file being downloaded.
    ContinueFileDownload(Vec<u8>),
    /// Ends a download.
    FinalizeDownload,
    /// An upload is accepted; the file can later be fetched with `secret`.
    AcceptFileUpload { secret: String },
    /// A request failed, with a message for the user.
    Error(String),
    /// Says goodbye.
    Disconnect,
}

/// The record the server keeps of each stored file.
#[allow(non_snake_case)]
#[derive(Debug, Clone, PartialEq, Eq)]
pub struct FileData {
    /// Secret the file is fetched (and encrypted) with.
    pub secret: String,
    /// Name of the file as the sender gave it.
    pub fileName: String,
    /// Where the encrypted contents are stored.
    pub path: String,
}

/// Mathematical value of a [`ClientMessage`].
pub enum ClientMsg {
    Hello,
    RequestFileDownload { secret: Seq<char> },
    RequestFileUpload { nome: Seq<char> },
    InitFileUpload { secret: Seq<char> },
    ContinueFileUpload(Seq<u8>),
    ContinueFileDownload(Seq<u8>),
    FinalizeUpload,
    Disconnect,
}

/// Mathematical value of a [`ServerMessage`].
pub enum ServerMsg {
    AcceptFileDownload { nome: Seq<char>, tamanho: u64, chunks: u64 },
    ContinueFileDownload(Seq<u8>),
    FinalizeDownload,
    AcceptFileUpload { secret: Seq<char> },
    Error(Seq<char>),
    Disconnect,
}

/// Mathematical value of a [`FileData`].
pub struct FileRecord {
    pub secret: Seq<char>,
    pub file_name: Seq<char>,
    pub path: Seq<char>,
}

impl View for ClientMessage {
    type V = ClientMsg;

    open spec fn view(&self) -> ClientMsg {
        match self {
            ClientMessage::Hello => ClientMsg::Hello,
            ClientMessage::RequestFileDownload { secret } => ClientMsg::RequestFileDownload {
                secret: secret@,
            },
            ClientMessage::RequestFileUpload { nome } => ClientMsg::RequestFileUpload {
                nome: nome@,
            },
            ClientMessage::InitFileUpload { secret } => ClientMsg::InitFileUpload {
                secret: secret@,
            },
            ClientMessage::ContinueFileUpload(data) => ClientMsg::ContinueFileUpload(data@),
            ClientMessage::ContinueFileDownload(data) => ClientMsg::ContinueFileDownload(data@),
            ClientMessage::FinalizeUpload => ClientMsg::FinalizeUpload,
            ClientMessage::Disconnect => ClientMsg::Disconnect,
        }
    }
}

impl View for ServerMessage {
    type V = ServerMsg;

    open spec fn view(&self) -> ServerMsg {
        match self {
            ServerMessage::AcceptFileDownload { nome, tamanho, chunks } =>
                ServerMsg::AcceptFileDownload { nome: nome@, tamanho: *tamanho, chunks: *chunks },
            ServerMessage::ContinueFileDownload(data) => ServerMsg::ContinueFileDownload(data@),
            ServerMessage::FinalizeDownload => ServerMsg::FinalizeDownload,
            ServerMessage::AcceptFileUpload { secret } => ServerMsg::AcceptFileUpload {
                secret: secret@,
            },
            ServerMessage::Error(m) => ServerMsg::Error(m@),
            ServerMessage::Disconnect => ServerMsg::Disconnect,
        }
    }
}

impl View for FileData {
    type V = FileRecord;

    open spec fn view(&self) -> FileRecord {
        FileRecord { secret: self.secret@, file_name: self.fileName@, path: self.path@ }
    }
}

/// Value of a received client message, or `None` at the end of the stream.
pub open spec fn client_event(m: Option<ClientMessage>) -> Option<ClientMsg> {
    match m {
        Some(m) => Some(m@),
        None => None,
    }
}

/// Value of a received server message, or `None` at the end of the stream.
pub open spec fn server_event(m: Option<ServerMessage>) -> Option<ServerMsg> {
    match m {
        Some(m) => Some(m@),
        None => None,
    }
}

// ---------------------------------------------------------------------------
// Framing
// ---------------------------------------------------------------------------

/// No byte of `s` is the delimiter.
pub open spec fn no_delimiter(s: Seq<u8>) -> bool {
    forall|i: int| 0 <= i < s.len() ==> s[i] != DELIMITER
}

/// `frame` is one complete frame: delimiter-free bytes ended by the delimiter.
pub open spec fn is_frame(frame: Seq<u8>) -> bool {
    frame.len() > 0 && frame.last() == DELIMITER && no_delimiter(frame.drop_last())
}

/// Frames an encoded message for the wire: the encoding followed by the delimiter.
pub fn serialize_message(encoded: &[u8]) -> (res: Vec<u8>)
    ensures
        res@ == encoded@.push(DELIMITER),
{
    let mut res = slice_to_vec(encoded);
    res.push(DELIMITER);
    res
}

/// Bytes received from a peer that have not yet been handed out as frames.
pub struct MessageReader {
    pending: Vec<u8>,
}

impl View for MessageReader {
    type V = Seq<u8>;

    closed spec fn view(&self) -> Seq<u8> {
        self.pending@
    }
}

impl MessageReader {
    /// A reader with nothing pending.
    pub fn new() -> (res: MessageReader)
        ensures
            res@ == Seq::<u8>::empty(),
    {
        MessageReader { pending: Vec::new() }
    }

    /// Adds bytes received from the peer.
    pub fn push(&mut self, data: &[u8])
        ensures
            final(self)@ == old(self)@ + data@,
    {
        let mut i: usize = 0;
        while i < data.len()
            invariant
                i <= data@.len(),
                self@ == old(self)@ + data@.take(i as int),
            decreases data@.len() - i,
        {
            self.pending.push(data[i]);
            assert(data@.take(i + 1) =~= data@.take(i as int).push(data@[i as int]));
            i = i + 1;
        }
        assert(data@.take(data@.len() as int) =~= data@);
    }

    /// Takes the first complete frame (up to and including the first
    /// delimiter) out of what is pending, or returns `None` when no complete
    /// frame has arrived yet.
    pub fn next_frame(&mut self) -> (res: Option<Vec<u8>>)
        ensures
            res matches Some(f) ==> is_frame(f@) && old(self)@ == f@ + final(self)@,
            res is None ==> no_delimiter(old(self)@) && final(self)@ == old(self)@,
    {
        let n = self.pending.len();
        let mut i: usize = 0;
        while i < n
            invariant
                n == self.pending@.len(),
                self@ == old(self)@,
                i <= n,
                no_delimiter(self.pending@.take(i as int)),
            decreases n - i,
        {
            if self.pending[i] == DELIMITER {
                let frame = slice_to_vec(slice_subrange(self.pending.as_slice(), 0, i + 1));
                let rest = slice_to_vec(slice_subrange(self.pending.as_slice(), i + 1, n));
                proof {
                    assert(frame@.last() == self.pending@[i as int]);
                    assert(frame@.drop_last() =~= self.pending@.take(i as int));
                    assert(self.pending@ =~= frame@ + rest@);
                }
                self.pending = rest;
                return Some(frame);
            }
            assert(self.pending@.take(i + 1) =~= self.pending@.take(i as int).push(
                self.pending@[i as int],
            ));
            i = i + 1;
        }
        assert(self.pending@.take(n as int) =~= self.pending@);
        None
    }

    /// Takes everything still pending; called when the peer has closed the
    /// stream, so an unterminated last message is handed out as it is and an
    /// empty result means nothing more was sent.
    pub fn finish(&mut self) -> (res: Vec<u8>)
        ensures
            res@ == old(self)@,
            final(self)@ == Seq::<u8>::empty(),
    {
        let mut rest = Vec::new();
        std::mem::swap(&mut rest, &mut self.pending);
        rest
    }
}

/// A framed message is read back whole: when the encoding holds no
/// delimiter, the first frame of a stream that starts with it is exactly the
/// framed message, and what follows is left pending.
pub proof fn lemma_frame_roundtrip(encoded: Seq<u8>, rest: Seq<u8>, frame: Seq<u8>, after: Seq<u8>)
    requires
        no_delimiter(encoded),
        is_frame(frame),
        frame + after == encoded.push(DELIMITER) + rest,
    ensures
        frame == encoded.push(DELIMITER),
        after == rest,
{
    let framed = encoded.push(DELIMITER);
    if frame.len() < framed.len() {
        assert((frame + after)[frame.len() - 1] == framed[frame.len() - 1]);
    } else if frame.len() > framed.len() {
        assert((frame + after)[framed.len() - 1] == frame.drop_last()[framed.len() - 1]);
    }
    assert(frame =~= (frame + after).take(frame.len() as int));
    assert(framed =~= (framed + rest).take(framed.len() as int));
    assert(after =~= (frame + after).skip(frame.len() as int));
    assert(rest =~= (framed + rest).skip(framed.len() as int));
}

} // verus!
