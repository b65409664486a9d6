use abi_yt_downloader::cancel::CancelRegistry;
use tokio_util::sync::CancellationToken;

#[test]
fn cancel_reaches_the_registered_token() {
    let mut reg = CancelRegistry::new();
    let a = CancellationToken::new();
    let b = CancellationToken::new();
    reg.insert("a".to_string(), a.clone());
    reg.insert("b".to_string(), b.clone());
    assert!(reg.cancel("a"));
    assert!(a.is_cancelled());
    assert!(!b.is_cancelled());
}

#[test]
fn cancel_of_unknown_or_removed_id_is_false() {
    let mut reg = CancelRegistry::new();
    let a = CancellationToken::new();
    assert!(!reg.cancel("a"));
    reg.insert("a".to_string(), a.clone());
    reg.remove("a");
    assert!(!reg.cancel("a"));
    assert!(!a.is_cancelled());
    reg.remove("never");
}

#[test]
fn insert_replaces_the_handle_of_an_id() {
    let mut reg = CancelRegistry::new();
    let old = CancellationToken::new();
    let new = CancellationToken::new();
    reg.insert("x".to_string(), old.clone());
    reg.insert("x".to_string(), new.clone());
    assert!(reg.cancel("x"));
    assert!(new.is_cancelled());
    assert!(!old.is_cancelled());
    reg.remove("x");
    assert!(!reg.cancel("x"));
}
