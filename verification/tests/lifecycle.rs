use tgfeed::telegram::{
    AuthAction, AuthHandler, AuthState, ChatKind, RawChat, TelegramService,
};
use tgfeed::ServiceError;

fn service() -> TelegramService {
    TelegramService::new("hash".to_string(), 1234, "+100000".to_string())
}

#[test]
fn start_twice_yields_already_started() {
    let mut svc = service();
    assert!(svc.start().is_ok());
    // the second start must fail and leave the first session usable
    assert_eq!(svc.start(), Err(ServiceError::AlreadyStarted));
    assert!(svc.ensure_started().is_ok());
    let found = RawChat {
        id: 7,
        title: "T".to_string(),
        username: "handle".to_string(),
        kind: ChatKind::Supergroup { is_channel: true },
    };
    let matched = svc.search_channel("handle", Some(found)).unwrap().unwrap();
    assert_eq!(matched.telegram_id, 7);
}

#[test]
fn queries_before_start_yield_not_started() {
    let svc = service();
    assert_eq!(svc.ensure_started(), Err(ServiceError::NotStarted));
    assert!(matches!(svc.search_channel("handle", None), Err(ServiceError::NotStarted)));
    assert!(matches!(svc.get_channel_history(1, &Vec::new()), Err(ServiceError::NotStarted)));
    assert!(matches!(svc.download_file(7), Err(ServiceError::NotStarted)));
    assert!(matches!(svc.get_all_channels(&Vec::new()), Err(ServiceError::NotStarted)));
}

#[test]
fn queries_after_start_succeed() {
    let mut svc = service();
    assert!(svc.start().is_ok());
    assert_eq!(svc.download_file(7), Ok(7));
    let (posts, files) = svc.get_channel_history(1, &Vec::new()).unwrap();
    assert!(posts.is_empty());
    assert!(files.is_empty());
    let channels = svc.get_all_channels(&Vec::new()).unwrap();
    assert!(channels.is_empty());
}

#[test]
fn stop_clears_the_session_and_is_idempotent() {
    let mut svc = service();
    svc.stop();
    assert_eq!(svc.ensure_started(), Err(ServiceError::NotStarted));
    assert!(svc.start().is_ok());
    svc.stop();
    svc.stop();
    assert_eq!(svc.ensure_started(), Err(ServiceError::NotStarted));
    // a stopped service may be started again
    assert!(svc.start().is_ok());
    assert!(svc.ensure_started().is_ok());
}

#[test]
fn error_messages() {
    assert_eq!(ServiceError::NotStarted.message(), "service not started yet");
    assert_eq!(ServiceError::AlreadyStarted.message(), "service already started");
    assert_eq!(ServiceError::BackendCallFailed.message(), "backend call failed");
    assert_eq!(ServiceError::PersistenceFailed.message(), "persistence failed");
}

#[test]
fn auth_prompts_resolve_from_preconfigured_credentials() {
    let handler = AuthHandler::new("secret-key", "+100000");
    match handler.respond(&AuthState::WaitPhoneNumber) {
        AuthAction::Provide(v) => assert_eq!(v, "+100000"),
        _ => panic!("phone prompt must be answered from configuration"),
    }
    match handler.respond(&AuthState::WaitEncryptionKey) {
        AuthAction::Provide(v) => assert_eq!(v, "secret-key"),
        _ => panic!("encryption key prompt must be answered from configuration"),
    }
    assert!(matches!(handler.respond(&AuthState::WaitCode), AuthAction::AskOperator));
    assert!(matches!(handler.respond(&AuthState::Ready), AuthAction::Complete));
}

#[test]
fn unsupported_auth_states_are_fatal() {
    let handler = AuthHandler::new("", "+100000");
    assert!(matches!(handler.respond(&AuthState::WaitPassword), AuthAction::Fail));
    assert!(matches!(
        handler.respond(&AuthState::WaitOtherDeviceConfirmation),
        AuthAction::Fail
    ));
    assert!(matches!(handler.respond(&AuthState::WaitRegistration), AuthAction::Fail));
}
