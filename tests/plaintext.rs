use charon::challenge::{Challenge, ChallengeRegistry};
use charon::redirect::{reply, reply_for_host};

fn registry_with(host: &str, token: &str, proof: &str) -> ChallengeRegistry {
    let mut registry = ChallengeRegistry::new();
    registry.insert(host.to_string(), Challenge::new(token, proof.to_string()));
    registry
}

#[test]
fn challenge_path_holds_token() {
    let c = Challenge::new("abc123", "abc123.key".to_string());
    assert_eq!(c.path, "/.well-known/acme-challenge/abc123");
    assert_eq!(c.proof, "abc123.key");
}

#[test]
fn registry_insert_get_remove() {
    let mut registry = ChallengeRegistry::new();
    assert!(registry.get("example.com").is_none());
    registry.insert("example.com".to_string(), Challenge::new("t1", "p1".to_string()));
    registry.insert("other.org".to_string(), Challenge::new("t2", "p2".to_string()));
    assert_eq!(registry.get("example.com").unwrap().proof, "p1");
    assert_eq!(registry.get("other.org").unwrap().proof, "p2");
    registry.remove("example.com");
    assert!(registry.get("example.com").is_none());
    assert_eq!(registry.get("other.org").unwrap().proof, "p2");
    registry.remove("missing.net");
    assert_eq!(registry.get("other.org").unwrap().path, "/.well-known/acme-challenge/t2");
}

#[test]
fn registry_same_domain_replaces() {
    let mut registry = ChallengeRegistry::new();
    registry.insert("example.com".to_string(), Challenge::new("t1", "p1".to_string()));
    registry.insert("example.com".to_string(), Challenge::new("t2", "p2".to_string()));
    let c = registry.get("example.com").unwrap();
    assert_eq!(c.path, "/.well-known/acme-challenge/t2");
    assert_eq!(c.proof, "p2");
    registry.remove("example.com");
    assert!(registry.get("example.com").is_none());
}

#[test]
fn redirect_is_exact() {
    let registry = ChallengeRegistry::new();
    let r = reply(&registry, Some("example.com"), Some("/foo?x=1"));
    assert_eq!(r.status, 308);
    assert_eq!(r.location.as_deref(), Some("https://example.com:8443/foo?x=1"));
    assert_eq!(r.body, "");
}

#[test]
fn redirect_defaults_path_to_root() {
    let registry = ChallengeRegistry::new();
    let r = reply(&registry, Some("example.com"), None);
    assert_eq!(r.status, 308);
    assert_eq!(r.location.as_deref(), Some("https://example.com:8443/"));
}

#[test]
fn redirect_drops_port_of_host_header() {
    let registry = ChallengeRegistry::new();
    let r = reply(&registry, Some("example.com:8080"), Some("/a"));
    assert_eq!(r.status, 308);
    assert_eq!(r.location.as_deref(), Some("https://example.com:8443/a"));
}

#[test]
fn missing_host_is_not_found() {
    let registry = ChallengeRegistry::new();
    let r = reply(&registry, None, Some("/foo"));
    assert_eq!(r.status, 404);
    assert!(r.location.is_none());
    assert_eq!(r.body, "");
}

#[test]
fn unparseable_host_is_not_found() {
    let registry = ChallengeRegistry::new();
    assert_eq!(reply(&registry, Some(""), Some("/")).status, 404);
    assert_eq!(reply(&registry, Some("bad host name"), Some("/")).status, 404);
}

#[test]
fn challenge_takes_precedence() {
    let registry = registry_with("example.com", "tok", "tok.proof");
    let r = reply(&registry, Some("example.com"), Some("/.well-known/acme-challenge/tok"));
    assert_eq!(r.status, 200);
    assert_eq!(r.body, "tok.proof");
    assert!(r.location.is_none());
}

#[test]
fn challenge_other_path_redirects() {
    let registry = registry_with("example.com", "tok", "tok.proof");
    let r = reply(&registry, Some("example.com"), Some("/.well-known/acme-challenge/other"));
    assert_eq!(r.status, 308);
    assert_eq!(
        r.location.as_deref(),
        Some("https://example.com:8443/.well-known/acme-challenge/other")
    );
}

#[test]
fn challenge_other_host_redirects() {
    let registry = registry_with("example.com", "tok", "tok.proof");
    let r = reply_for_host(&registry, Some("example.org"), Some("/.well-known/acme-challenge/tok"));
    assert_eq!(r.status, 308);
    assert_eq!(
        r.location.as_deref(),
        Some("https://example.org:8443/.well-known/acme-challenge/tok")
    );
}
