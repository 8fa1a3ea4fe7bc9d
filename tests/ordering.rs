use charon::acme::{stored_certificates, HttpChallenge, Order, OrderAction, OrderError, OrderEvent, OrderStage};
use charon::challenge::ChallengeRegistry;

fn challenge(token: &str, proof: &str) -> OrderEvent {
    OrderEvent::Authorized(Some(HttpChallenge { token: token.to_string(), proof: proof.to_string() }))
}

#[test]
fn order_issues_after_one_validation() {
    let mut registry = ChallengeRegistry::new();
    let mut order = Order::new("example.com".to_string());
    assert_eq!(order.first_action(), OrderAction::CreateOrder);
    assert_eq!(order.step(&mut registry, OrderEvent::Succeeded), OrderAction::ConfirmValidations);
    assert_eq!(order.step(&mut registry, OrderEvent::Confirmed(false)), OrderAction::FetchAuthorizations);
    assert!(registry.get("example.com").is_none());
    assert_eq!(order.step(&mut registry, challenge("tok", "tok.key")), OrderAction::RequestValidation);
    let published = registry.get("example.com").unwrap();
    assert_eq!(published.path, "/.well-known/acme-challenge/tok");
    assert_eq!(published.proof, "tok.key");
    assert_eq!(order.step(&mut registry, OrderEvent::Succeeded), OrderAction::RefreshOrder);
    assert!(registry.get("example.com").is_some());
    assert_eq!(order.step(&mut registry, OrderEvent::Succeeded), OrderAction::ConfirmValidations);
    assert!(registry.get("example.com").is_none());
    assert_eq!(order.step(&mut registry, OrderEvent::Confirmed(true)), OrderAction::FinalizeOrder);
    assert_eq!(order.step(&mut registry, OrderEvent::Succeeded), OrderAction::DownloadCertificate);
    assert_eq!(order.step(&mut registry, OrderEvent::Succeeded), OrderAction::Done);
    assert_eq!(order.current_stage(), OrderStage::Issued);
    assert!(registry.get("example.com").is_none());
}

#[test]
fn order_already_validated_skips_challenge() {
    let mut registry = ChallengeRegistry::new();
    let mut order = Order::new("example.com".to_string());
    order.step(&mut registry, OrderEvent::Succeeded);
    assert_eq!(order.step(&mut registry, OrderEvent::Confirmed(true)), OrderAction::FinalizeOrder);
    assert!(registry.get("example.com").is_none());
}

#[test]
fn order_validation_error_retracts() {
    let mut registry = ChallengeRegistry::new();
    let mut order = Order::new("example.com".to_string());
    order.step(&mut registry, OrderEvent::Succeeded);
    order.step(&mut registry, OrderEvent::Confirmed(false));
    order.step(&mut registry, challenge("tok", "tok.key"));
    assert!(registry.get("example.com").is_some());
    assert_eq!(order.step(&mut registry, OrderEvent::Failed), OrderAction::Fail(OrderError::Server));
    assert!(registry.get("example.com").is_none());
    assert_eq!(order.current_stage(), OrderStage::Failed);
}

#[test]
fn order_refresh_error_retracts() {
    let mut registry = ChallengeRegistry::new();
    let mut order = Order::new("example.com".to_string());
    order.step(&mut registry, OrderEvent::Succeeded);
    order.step(&mut registry, OrderEvent::Confirmed(false));
    order.step(&mut registry, challenge("tok", "tok.key"));
    order.step(&mut registry, OrderEvent::Succeeded);
    assert_eq!(order.step(&mut registry, OrderEvent::Failed), OrderAction::Fail(OrderError::Server));
    assert!(registry.get("example.com").is_none());
}

#[test]
fn order_without_authorization_fails() {
    let mut registry = ChallengeRegistry::new();
    let mut order = Order::new("example.com".to_string());
    order.step(&mut registry, OrderEvent::Succeeded);
    order.step(&mut registry, OrderEvent::Confirmed(false));
    assert_eq!(
        order.step(&mut registry, OrderEvent::Authorized(None)),
        OrderAction::Fail(OrderError::NoAuthorizations)
    );
    assert!(registry.get("example.com").is_none());
}

#[test]
fn order_out_of_order_event_fails() {
    let mut registry = ChallengeRegistry::new();
    let mut order = Order::new("example.com".to_string());
    assert_eq!(
        order.step(&mut registry, OrderEvent::Confirmed(true)),
        OrderAction::Fail(OrderError::OutOfOrder)
    );
    assert_eq!(
        order.step(&mut registry, OrderEvent::Succeeded),
        OrderAction::Fail(OrderError::OutOfOrder)
    );
    assert_eq!(order.current_stage(), OrderStage::Failed);
}

#[test]
fn order_leaves_other_domains_alone() {
    let mut registry = ChallengeRegistry::new();
    registry.insert("other.org".to_string(), charon::challenge::Challenge::new("x", "y".to_string()));
    let mut order = Order::new("example.com".to_string());
    assert_eq!(order.domain_name(), "example.com");
    order.step(&mut registry, OrderEvent::Succeeded);
    order.step(&mut registry, OrderEvent::Confirmed(false));
    order.step(&mut registry, challenge("tok", "tok.key"));
    order.step(&mut registry, OrderEvent::Failed);
    assert!(registry.get("example.com").is_none());
    assert_eq!(registry.get("other.org").unwrap().proof, "y");
}

#[test]
fn stored_certificates_skips_missing() {
    let answers: Vec<(String, Result<Option<u32>, String>)> = vec![
        ("a.example".to_string(), Ok(Some(1))),
        ("b.example".to_string(), Ok(None)),
        ("c.example".to_string(), Ok(Some(3))),
    ];
    let found = stored_certificates(answers).unwrap();
    assert_eq!(found, vec![("a.example".to_string(), 1), ("c.example".to_string(), 3)]);
}

#[test]
fn stored_certificates_fails_on_first_error() {
    let answers: Vec<(String, Result<Option<u32>, String>)> = vec![
        ("a.example".to_string(), Ok(Some(1))),
        ("b.example".to_string(), Err("unreadable b".to_string())),
        ("c.example".to_string(), Err("unreadable c".to_string())),
    ];
    assert_eq!(stored_certificates(answers), Err("unreadable b".to_string()));
    let none: Vec<(String, Result<Option<u32>, String>)> = Vec::new();
    assert_eq!(stored_certificates(none), Ok(vec![]));
}
