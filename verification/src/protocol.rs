use vstd::prelude::*;

use crate::client::{FetchingPhase, FetchingStep, SendingStep, base_name, download_path_of, fetching_step, lemma_base_name, sending_step};
use crate::messages::{ClientMsg, FileRecord, ServerMsg};
use crate::server::{ServerPhase, ServerStep, message_step, record_step, secret_step};
use crate::stream::{concat, lemma_transfer_chunks_rebuild, transfer_chunk_count, transfer_chunks};

verus! {

/// The sender uploads under the secret the server handed out: when the server
/// accepts an upload, the sender's answer makes the server receive the file
/// under that very secret, the one it recorded.
pub proof fn lemma_upload_uses_assigned_secret(
    secret: Seq<char>,
    file_name: Seq<char>,
    accepted: ServerPhase,
    accept: ServerStep,
    now_finished: bool,
    answer: SendingStep,
    receiving: ServerPhase,
    open: ServerStep,
)
    requires
        secret_step(ServerPhase::CheckingSecret { secret, file_name }, false, accepted, accept),
        accept matches ServerStep::StoreAndAccept { reply, .. } && sending_step(
            false,
            Some(reply),
            now_finished,
            answer,
        ),
        answer matches SendingStep::Upload { init, .. } && message_step(
            accepted,
            Some(init),
            receiving,
            open,
        ),
    ensures
        answer matches SendingStep::Upload { secret: told, .. } && told == secret,
        receiving == (ServerPhase::ReceivingUpload { secret }),
        accept matches ServerStep::StoreAndAccept { record, .. } && record.secret == secret,
{
}

/// A downloaded file is saved under the name recorded for it: when the server
/// serves a record, the client that receives the matching announcement opens
/// a file of the recorded name.
pub proof fn lemma_download_keeps_name(
    secret: Seq<char>,
    record: FileRecord,
    served: ServerPhase,
    send: ServerStep,
    file_length: u64,
    receiving: FetchingPhase,
    step: FetchingStep,
)
    requires
        record_step(ServerPhase::AwaitingRecord { secret }, Some(record), served, send),
        send matches ServerStep::SendDownload { file_name, .. } && fetching_step(
            FetchingPhase::AwaitingAccept,
            Some(
                ServerMsg::AcceptFileDownload {
                    nome: file_name,
                    tamanho: file_length,
                    chunks: transfer_chunk_count(file_length as nat) as u64,
                },
            ),
            receiving,
            step,
        ),
    ensures
        step == (FetchingStep::OpenFile { file_name: record.file_name }),
        receiving == (FetchingPhase::Receiving { file_name: record.file_name }),
{
}


/// A file sent from `path` is downloaded under its own name: the sender asks
/// to upload it under the last component of `path`, the server records that
/// name with the upload, and the client fetching that record opens a file of
/// that name, which holds no `/` (so it lands directly in the downloads folder).
pub proof fn lemma_download_saved_under_file_name(
    path: Seq<char>,
    checking: ServerPhase,
    check: ServerStep,
    accepted: ServerPhase,
    accept: ServerStep,
    secret: Seq<char>,
    served: ServerPhase,
    send: ServerStep,
    file_length: u64,
    receiving: FetchingPhase,
    step: FetchingStep,
)
    requires
        message_step(
            ServerPhase::AwaitingCommand,
            Some(ClientMsg::RequestFileUpload { nome: base_name(path) }),
            checking,
            check,
        ),
        secret_step(checking, false, accepted, accept),
        accept matches ServerStep::StoreAndAccept { record, .. } && record_step(
            ServerPhase::AwaitingRecord { secret },
            Some(record),
            served,
            send,
        ),
        send matches ServerStep::SendDownload { file_name, .. } && fetching_step(
            FetchingPhase::AwaitingAccept,
            Some(
                ServerMsg::AcceptFileDownload {
                    nome: file_name,
                    tamanho: file_length,
                    chunks: transfer_chunk_count(file_length as nat) as u64,
                },
            ),
            receiving,
            step,
        ),
    ensures
        step == (FetchingStep::OpenFile { file_name: base_name(path) }),
        forall|j: int| 0 <= j < base_name(path).len() ==> base_name(path)[j] != '/',
{
    lemma_base_name(path);
}


/// A download request finds the upload made under the same secret: asked for
/// secret `s`, the server looks up exactly `s`; given the record an accepted
/// upload under `s` stored, it reads the file from the path that upload was
/// encrypted into, with the same secret, and sends it under the recorded name.
pub proof fn lemma_download_request_finds_upload(
    secret: Seq<char>,
    file_name: Seq<char>,
    accepted: ServerPhase,
    accept: ServerStep,
    end_of_upload: Option<ClientMsg>,
    uploaded: ServerPhase,
    finish: ServerStep,
    asked: ServerPhase,
    lookup: ServerStep,
    served: ServerPhase,
    send: ServerStep,
)
    requires
        secret_step(ServerPhase::CheckingSecret { secret, file_name }, false, accepted, accept),
        message_step(ServerPhase::ReceivingUpload { secret }, end_of_upload, uploaded, finish),
        !(end_of_upload matches Some(ClientMsg::ContinueFileUpload(_))),
        message_step(
            ServerPhase::AwaitingCommand,
            Some(ClientMsg::RequestFileDownload { secret }),
            asked,
            lookup,
        ),
        accept matches ServerStep::StoreAndAccept { record, .. } && record_step(
            asked,
            Some(record),
            served,
            send,
        ),
    ensures
        lookup == (ServerStep::LookupRecord { secret }),
        asked == (ServerPhase::AwaitingRecord { secret }),
        finish matches ServerStep::FinishUpload { stored_path, password, .. } && send matches ServerStep::SendDownload {
            stored_path: read_path,
            password: key,
            file_name: sent_name,
            ..
        } && read_path == stored_path && key == password && key == secret && sent_name == file_name,
{
}

/// The bytes an upload step has the server append to the file being received.
pub open spec fn upload_bytes(step: ServerStep) -> Seq<u8> {
    match step {
        ServerStep::AppendUpload { data } => data,
        _ => Seq::empty(),
    }
}

/// The bytes a download step has the fetching client append to its file.
pub open spec fn download_bytes(step: FetchingStep) -> Seq<u8> {
    match step {
        FetchingStep::AppendData { data } => data,
        _ => Seq::empty(),
    }
}

/// While an upload is received, the server appends every chunk the client
/// sends, unchanged and in order, and keeps receiving: over chunks `chunks`
/// (taking the server through `phases`, with actions `steps`), what it appends
/// is the chunks joined; when they are the chunks a file is streamed in, that
/// is the whole file.
pub proof fn lemma_upload_appends_chunks(
    secret: Seq<char>,
    chunks: Seq<Seq<u8>>,
    phases: Seq<ServerPhase>,
    steps: Seq<ServerStep>,
)
    requires
        phases.len() == chunks.len() + 1,
        steps.len() == chunks.len(),
        phases[0] == (ServerPhase::ReceivingUpload { secret }),
        forall|k: int|
            0 <= k < chunks.len() ==> message_step(
                #[trigger] phases[k],
                Some(ClientMsg::ContinueFileUpload(chunks[k])),
                phases[k + 1],
                steps[k],
            ),
    ensures
        forall|k: int| 0 <= k < phases.len() ==> #[trigger] phases[k] == (ServerPhase::ReceivingUpload { secret }),
        concat(Seq::new(steps.len(), |k: int| upload_bytes(steps[k]))) == concat(chunks),
        forall|content: Seq<u8>|
            chunks == #[trigger] transfer_chunks(content) ==> concat(Seq::new(steps.len(), |k: int| upload_bytes(steps[k]))) == content,
    decreases chunks.len(),
{
    if chunks.len() > 0 {
        let n = chunks.len() - 1;
        lemma_upload_appends_chunks(secret, chunks.drop_last(), phases.drop_last(), steps.drop_last());
        assert(phases[n] == phases.drop_last()[n]);
        assert(Seq::new(steps.len(), |k: int| upload_bytes(steps[k])).drop_last() =~= Seq::new(
            steps.drop_last().len(),
            |k: int| upload_bytes(steps.drop_last()[k]),
        ));
        assert forall|k: int| 0 <= k < phases.len() implies #[trigger] phases[k]
            == (ServerPhase::ReceivingUpload { secret }) by {
            if k < phases.len() - 1 {
                assert(phases[k] == phases.drop_last()[k]);
            }
        }
    } else {
        assert(Seq::new(steps.len(), |k: int| upload_bytes(steps[k])) =~= Seq::<Seq<u8>>::empty());
    }
    assert forall|content: Seq<u8>|
        chunks == #[trigger] transfer_chunks(content) implies concat(Seq::new(steps.len(), |k: int| upload_bytes(steps[k]))) == content by {
        lemma_transfer_chunks_rebuild(content);
    }
}

/// While a download is received, the fetching client appends every chunk the
/// server sends, unchanged and in order, and keeps receiving: over chunks
/// `chunks` (taking it through `phases`, with actions `steps`), what it
/// appends is the chunks joined; when they are the chunks a file is streamed
/// in (as the server's download plan sends them), that is the whole file.
pub proof fn lemma_download_appends_chunks(
    file_name: Seq<char>,
    chunks: Seq<Seq<u8>>,
    phases: Seq<FetchingPhase>,
    steps: Seq<FetchingStep>,
)
    requires
        phases.len() == chunks.len() + 1,
        steps.len() == chunks.len(),
        phases[0] == (FetchingPhase::Receiving { file_name }),
        forall|k: int|
            0 <= k < chunks.len() ==> fetching_step(
                #[trigger] phases[k],
                Some(ServerMsg::ContinueFileDownload(chunks[k])),
                phases[k + 1],
                steps[k],
            ),
    ensures
        forall|k: int| 0 <= k < phases.len() ==> #[trigger] phases[k] == (FetchingPhase::Receiving { file_name }),
        concat(Seq::new(steps.len(), |k: int| download_bytes(steps[k]))) == concat(chunks),
        forall|content: Seq<u8>|
            chunks == #[trigger] transfer_chunks(content) ==> concat(Seq::new(steps.len(), |k: int| download_bytes(steps[k]))) == content,
    decreases chunks.len(),
{
    if chunks.len() > 0 {
        let n = chunks.len() - 1;
        lemma_download_appends_chunks(file_name, chunks.drop_last(), phases.drop_last(), steps.drop_last());
        assert(phases[n] == phases.drop_last()[n]);
        assert(Seq::new(steps.len(), |k: int| download_bytes(steps[k])).drop_last() =~= Seq::new(
            steps.drop_last().len(),
            |k: int| download_bytes(steps.drop_last()[k]),
        ));
        assert forall|k: int| 0 <= k < phases.len() implies #[trigger] phases[k]
            == (FetchingPhase::Receiving { file_name }) by {
            if k < phases.len() - 1 {
                assert(phases[k] == phases.drop_last()[k]);
            }
        }
    } else {
        assert(Seq::new(steps.len(), |k: int| download_bytes(steps[k])) =~= Seq::<Seq<u8>>::empty());
    }
    assert forall|content: Seq<u8>|
        chunks == #[trigger] transfer_chunks(content) implies concat(Seq::new(steps.len(), |k: int| download_bytes(steps[k]))) == content by {
        lemma_transfer_chunks_rebuild(content);
    }
}

/// The path a download is written to is the home folder, then
/// `/Downloads/`, then the file's name exactly as given, with nothing
/// inserted, dropped or replaced.
pub proof fn lemma_download_path(home: Seq<char>, file_name: Seq<char>)
    ensures
        download_path_of(home, file_name).len() == home.len() + 11 + file_name.len(),
        download_path_of(home, file_name).take(home.len() as int) == home,
        download_path_of(home, file_name).subrange(home.len() as int, home.len() + 11int) == "/Downloads/"@,
        download_path_of(home, file_name).skip(home.len() + 11int) == file_name,
{
    reveal_strlit("/Downloads/");
    let p = download_path_of(home, file_name);
    assert(p.take(home.len() as int) =~= home);
    assert(p.subrange(home.len() as int, home.len() + 11int) =~= "/Downloads/"@);
    assert(p.skip(home.len() + 11int) =~= file_name);
}

} // verus!
