use file_transfer::client::{
    download_path, file_name_of, FetchingAction, FetchingSession, FetchingState, SendingAction, SendingSession,
};
use file_transfer::messages::{ClientMessage, ServerMessage};

#[test]
fn sender_opens_with_hello_and_request() {
    let s = SendingSession::new("a.txt".to_string());
    assert_eq!(
        s.opening(),
        vec![ClientMessage::Hello, ClientMessage::RequestFileUpload { nome: "a.txt".to_string() }]
    );
}

#[test]
fn sender_names_the_file_by_its_last_component() {
    let s = SendingSession::new("docs/exemplo.txt".to_string());
    assert_eq!(
        s.opening(),
        vec![
            ClientMessage::Hello,
            ClientMessage::RequestFileUpload { nome: "exemplo.txt".to_string() }
        ]
    );
}

#[test]
fn file_names_drop_the_folders() {
    assert_eq!(file_name_of("docs/exemplo.txt"), "exemplo.txt");
    assert_eq!(file_name_of("/home/u/a b/ç.txt"), "ç.txt");
    assert_eq!(file_name_of("a.txt"), "a.txt");
    assert_eq!(file_name_of("dir/"), "");
    assert_eq!(file_name_of(""), "");
}

#[test]
fn sender_uploads_under_the_given_secret() {
    let mut s = SendingSession::new("a.txt".to_string());
    assert_eq!(
        s.on_message(Some(ServerMessage::FinalizeDownload)),
        SendingAction::ReportUnexpected { message: ServerMessage::FinalizeDownload }
    );
    assert!(!s.is_finished());
    assert_eq!(
        s.on_message(Some(ServerMessage::AcceptFileUpload { secret: "Q1w2E3r".to_string() })),
        SendingAction::Upload {
            init: ClientMessage::InitFileUpload { secret: "Q1w2E3r".to_string() },
            secret: "Q1w2E3r".to_string(),
        }
    );
    assert!(s.is_finished());
    assert_eq!(s.on_message(Some(ServerMessage::FinalizeDownload)), SendingAction::Stop);
}

#[test]
fn sender_stops_on_error_or_end() {
    let mut s = SendingSession::new("a".to_string());
    assert_eq!(
        s.on_message(Some(ServerMessage::Error("Erro".to_string()))),
        SendingAction::ReportError { message: "Erro".to_string() }
    );
    assert!(s.is_finished());
    let mut s = SendingSession::new("a".to_string());
    assert_eq!(s.on_message(None), SendingAction::Stop);
    assert!(s.is_finished());
}

#[test]
fn fetcher_opens_with_hello_and_request() {
    let s = FetchingSession::new("K".to_string());
    assert_eq!(
        s.opening(),
        vec![ClientMessage::Hello, ClientMessage::RequestFileDownload { secret: "K".to_string() }]
    );
}

#[test]
fn fetcher_writes_chunks_then_closes() {
    let mut s = FetchingSession::new("K".to_string());
    assert_eq!(
        s.on_message(Some(ServerMessage::AcceptFileDownload {
            nome: "a.txt".to_string(),
            tamanho: 3,
            chunks: 1,
        })),
        FetchingAction::OpenFile { file_name: "a.txt".to_string() }
    );
    assert_eq!(s.state(), &FetchingState::Receiving { file_name: "a.txt".to_string() });
    assert_eq!(
        s.on_message(Some(ServerMessage::ContinueFileDownload(vec![1, 2, 3]))),
        FetchingAction::AppendData { data: vec![1, 2, 3] }
    );
    assert_eq!(s.on_message(Some(ServerMessage::FinalizeDownload)), FetchingAction::CloseFile);
    assert!(s.is_done());
    assert_eq!(s.on_message(None), FetchingAction::Stop);
}

#[test]
fn fetcher_reports_errors() {
    let mut s = FetchingSession::new("K".to_string());
    assert_eq!(
        s.on_message(Some(ServerMessage::Error("Erro ao achar arquivo".to_string()))),
        FetchingAction::ReportError { message: "Erro ao achar arquivo".to_string() }
    );
    assert!(s.is_done());

    let mut s = FetchingSession::new("K".to_string());
    s.on_message(Some(ServerMessage::AcceptFileDownload {
        nome: "a".to_string(),
        tamanho: 0,
        chunks: 1,
    }));
    assert_eq!(
        s.on_message(Some(ServerMessage::Error("x".to_string()))),
        FetchingAction::CloseFileAfterError { message: "x".to_string() }
    );
    assert!(s.is_done());
}

#[test]
fn fetcher_ignores_stray_messages_before_acceptance_only() {
    let mut s = FetchingSession::new("K".to_string());
    assert_eq!(
        s.on_message(Some(ServerMessage::Disconnect)),
        FetchingAction::ReportUnexpected { message: ServerMessage::Disconnect }
    );
    assert_eq!(s.state(), &FetchingState::AwaitingAccept);
    s.on_message(Some(ServerMessage::AcceptFileDownload {
        nome: "a".to_string(),
        tamanho: 0,
        chunks: 1,
    }));
    assert_eq!(
        s.on_message(Some(ServerMessage::Disconnect)),
        FetchingAction::CloseFileAfterUnexpected { message: ServerMessage::Disconnect }
    );
    assert!(s.is_done());
}

#[test]
fn fetcher_stops_when_nothing_is_announced() {
    let mut s = FetchingSession::new("K".to_string());
    assert_eq!(s.on_message(Some(ServerMessage::FinalizeDownload)), FetchingAction::Stop);
    assert!(s.is_done());
    let mut s = FetchingSession::new("K".to_string());
    assert_eq!(s.on_message(None), FetchingAction::Stop);
}

#[test]
fn downloads_go_to_the_downloads_folder() {
    assert_eq!(download_path("/home/u", "a.txt"), "/home/u/Downloads/a.txt");
}
