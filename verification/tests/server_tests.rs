use file_transfer::messages::{ClientMessage, FileData, ServerMessage};
use file_transfer::server::{
    accept_download, DownloadStep, DownloadStream, generate_secret, stored_path, temp_path, Server, ServerAction, ServerSession,
    ServerState,
};

fn is_secret(s: &str) -> bool {
    s.len() == 7 && s.chars().all(|c| c.is_ascii_alphanumeric())
}

#[test]
fn secrets_are_seven_alphanumerics() {
    for _ in 0..20 {
        assert!(is_secret(&generate_secret()));
    }
}

#[test]
fn paths_follow_the_secret() {
    assert_eq!(stored_path("abc"), "./files/abc");
    assert_eq!(temp_path("abc"), "/tmp/abc");
}

#[test]
fn download_announcement_counts_chunks() {
    assert_eq!(
        accept_download("a.txt".to_string(), 2500),
        ServerMessage::AcceptFileDownload { nome: "a.txt".to_string(), tamanho: 2500, chunks: 3 }
    );
    assert_eq!(
        accept_download("b".to_string(), 0),
        ServerMessage::AcceptFileDownload { nome: "b".to_string(), tamanho: 0, chunks: 1 }
    );
}

#[test]
fn upload_is_reserved_received_and_stored() {
    let mut s = Server::new().session();
    assert_eq!(s.on_message(Some(ClientMessage::Hello)), ServerAction::Continue);
    let secret = match s.on_message(Some(ClientMessage::RequestFileUpload {
        nome: "notes.txt".to_string(),
    })) {
        ServerAction::CheckSecret { secret } => secret,
        other => panic!("unexpected {:?}", other),
    };
    assert!(is_secret(&secret));
    assert_eq!(
        s.on_secret_checked(false),
        ServerAction::StoreAndAccept {
            record: FileData {
                secret: secret.clone(),
                fileName: "notes.txt".to_string(),
                path: format!("./files/{}", secret),
            },
            reply: ServerMessage::AcceptFileUpload { secret: secret.clone() },
        }
    );
    assert_eq!(
        s.on_message(Some(ClientMessage::InitFileUpload { secret: secret.clone() })),
        ServerAction::OpenUpload { temp_path: format!("/tmp/{}", secret) }
    );
    assert_eq!(
        s.on_message(Some(ClientMessage::ContinueFileUpload(vec![1, 2, 3]))),
        ServerAction::AppendUpload { data: vec![1, 2, 3] }
    );
    assert_eq!(
        s.on_message(Some(ClientMessage::FinalizeUpload)),
        ServerAction::FinishUpload {
            temp_path: format!("/tmp/{}", secret),
            stored_path: format!("./files/{}", secret),
            password: secret.clone(),
        }
    );
    assert_eq!(s.state(), &ServerState::AwaitingCommand);
    assert_eq!(s.on_message(None), ServerAction::Close);
    assert!(s.is_closed());
}

#[test]
fn taken_secret_closes_the_connection() {
    let mut s = ServerSession::new();
    s.on_message(Some(ClientMessage::RequestFileUpload { nome: "x".to_string() }));
    assert_eq!(
        s.on_secret_checked(true),
        ServerAction::RejectAndClose {
            reply: ServerMessage::Error("Erro ao criar arquivo".to_string())
        }
    );
    assert!(s.is_closed());
    assert_eq!(s.on_message(Some(ClientMessage::Hello)), ServerAction::Close);
}

#[test]
fn upload_ends_at_end_of_stream_or_on_other_message() {
    let mut s = ServerSession::new();
    s.on_message(Some(ClientMessage::InitFileUpload { secret: "k".to_string() }));
    assert_eq!(
        s.on_message(None),
        ServerAction::FinishUpload {
            temp_path: "/tmp/k".to_string(),
            stored_path: "./files/k".to_string(),
            password: "k".to_string(),
        }
    );
    assert_eq!(s.on_message(None), ServerAction::Close);

    let mut s = ServerSession::new();
    s.on_message(Some(ClientMessage::InitFileUpload { secret: "k".to_string() }));
    assert!(matches!(
        s.on_message(Some(ClientMessage::Hello)),
        ServerAction::FinishUpload { .. }
    ));
    assert_eq!(s.state(), &ServerState::AwaitingCommand);
}

#[test]
fn download_serves_the_recorded_name() {
    let mut s = ServerSession::new();
    assert_eq!(
        s.on_message(Some(ClientMessage::RequestFileDownload { secret: "AbC123x".to_string() })),
        ServerAction::LookupRecord { secret: "AbC123x".to_string() }
    );
    let record = FileData {
        secret: "AbC123x".to_string(),
        fileName: "photo.png".to_string(),
        path: "./files/AbC123x".to_string(),
    };
    assert_eq!(
        s.on_record(Some(record)),
        ServerAction::SendDownload {
            stored_path: "./files/AbC123x".to_string(),
            temp_path: "/tmp/AbC123x".to_string(),
            password: "AbC123x".to_string(),
            file_name: "photo.png".to_string(),
        }
    );
    assert_eq!(s.state(), &ServerState::AwaitingCommand);
}

#[test]
fn unknown_secret_closes_the_connection() {
    let mut s = ServerSession::new();
    s.on_message(Some(ClientMessage::RequestFileDownload { secret: "nope".to_string() }));
    assert_eq!(
        s.on_record(None),
        ServerAction::RejectAndClose {
            reply: ServerMessage::Error("Erro ao achar arquivo".to_string())
        }
    );
    assert!(s.is_closed());
}

#[test]
fn stray_messages_are_ignored() {
    let mut s = ServerSession::new();
    assert_eq!(s.on_message(Some(ClientMessage::Disconnect)), ServerAction::Continue);
    assert_eq!(s.on_message(Some(ClientMessage::FinalizeUpload)), ServerAction::Continue);
    assert_eq!(
        s.on_message(Some(ClientMessage::ContinueFileUpload(vec![1]))),
        ServerAction::Continue
    );
    assert_eq!(s.on_secret_checked(false), ServerAction::Continue);
    assert_eq!(s.on_record(None), ServerAction::Continue);
    assert_eq!(s.state(), &ServerState::AwaitingCommand);
}

#[test]
fn download_is_announced_chunked_and_finalized() {
    let mut d = DownloadStream::new("a.bin".to_string(), 2048);
    assert_eq!(
        d.next_step(),
        DownloadStep::Send(ServerMessage::AcceptFileDownload {
            nome: "a.bin".to_string(),
            tamanho: 2048,
            chunks: 3,
        })
    );
    assert_eq!(d.next_step(), DownloadStep::ReadChunk(1024));
    assert_eq!(d.next_step(), DownloadStep::ReadChunk(1024));
    assert_eq!(d.next_step(), DownloadStep::ReadChunk(0));
    assert_eq!(d.next_step(), DownloadStep::Send(ServerMessage::FinalizeDownload));
    assert_eq!(d.next_step(), DownloadStep::Done);
    assert_eq!(d.next_step(), DownloadStep::Done);
}

#[test]
fn empty_download_has_one_empty_chunk() {
    let mut d = DownloadStream::new("e".to_string(), 0);
    assert!(matches!(d.next_step(), DownloadStep::Send(ServerMessage::AcceptFileDownload { chunks: 1, .. })));
    assert_eq!(d.next_step(), DownloadStep::ReadChunk(0));
    assert_eq!(d.next_step(), DownloadStep::Send(ServerMessage::FinalizeDownload));
    assert_eq!(d.next_step(), DownloadStep::Done);
}
