use onechat::active::GenerationManager;
use tokio_util::sync::CancellationToken;

#[test]
fn one_generation_runs_per_conversation() {
    let mut manager = GenerationManager::new();
    assert!(!manager.is_active("c1"));
    assert!(manager.start("c1".into(), "q1".into(), "r1".into(), CancellationToken::new()));
    assert!(manager.is_active("c1"));
    assert!(!manager.start("c1".into(), "q2".into(), "r2".into(), CancellationToken::new()));
    assert_eq!(manager.active_request("c1").unwrap().request_id, "q1");
    assert!(manager.start("c2".into(), "q3".into(), "r3".into(), CancellationToken::new()));
    assert_eq!(manager.active_request("c2").unwrap().response_id, "r3");
}

#[test]
fn finishing_needs_the_running_request() {
    let mut manager = GenerationManager::default();
    manager.start("c1".into(), "q1".into(), "r1".into(), CancellationToken::new());
    manager.finish("c1", "other");
    assert!(manager.is_active("c1"));
    manager.finish("c1", "q1");
    assert!(!manager.is_active("c1"));
    assert!(manager.active_request("c1").is_none());
    assert!(manager.start("c1".into(), "q2".into(), "r2".into(), CancellationToken::new()));
}

#[test]
fn stopping_cancels_the_token() {
    let mut manager = GenerationManager::new();
    let token = CancellationToken::new();
    manager.start("c1".into(), "q1".into(), "r1".into(), token.clone());
    assert!(!manager.stop("missing"));
    assert!(manager.stop("c1"));
    assert!(token.is_cancelled());
    assert!(manager.is_active("c1"));
}

#[test]
fn a_second_generation_in_a_conversation_is_refused_with_a_message() {
    let mut manager = GenerationManager::new();
    assert_eq!(manager.start_refusal("c1"), None);
    manager.start("c1".into(), "q1".into(), "r1".into(), CancellationToken::new());
    assert_eq!(manager.start_refusal("c1"), Some("This conversation already has an active generation."));
    assert_eq!(manager.start_refusal("c2"), None);
}
