use web_automator::cookie_sync::{CookieSync, SyncCommand, SyncEvent, SyncOutcome};
use web_automator::models::Cookie;

fn cookie(name: &str, domain: Option<&str>) -> Cookie {
    Cookie {
        name: name.to_string(),
        value: format!("{}-value", name),
        domain: domain.map(|d| d.to_string()),
        path: Some("/".to_string()),
        secure: Some(true),
        http_only: None,
        expiry: None,
    }
}

fn new_sync() -> CookieSync {
    CookieSync::new("https://shop.example.com/cart".to_string(), "c.json".to_string()).unwrap()
}

#[test]
fn root_page_is_scheme_and_domain() {
    let sync = new_sync();
    assert_eq!(sync.domain, "shop.example.com");
    assert_eq!(sync.root, "https://shop.example.com");
    assert!(CookieSync::new("http://10.0.0.1/".to_string(), "c.json".to_string()).is_none());
}

#[test]
fn missing_cookies_are_added_then_target_reopened() {
    let mut sync = new_sync();
    assert!(matches!(sync.advance(SyncEvent::Begin), SyncCommand::ReadFile(p) if p == "c.json"));
    let stored = vec![
        cookie("sid", Some(".example.com")),
        cookie("other", Some("other.net")),
        cookie("pref", Some("shop.example.com")),
    ];
    assert!(matches!(
        sync.advance(SyncEvent::FileRead(Some(stored))),
        SyncCommand::ReadBrowserCookies
    ));
    let current = vec![("sid".to_string(), Some(".example.com".to_string()))];
    assert!(matches!(
        sync.advance(SyncEvent::BrowserCookies(Some(current))),
        SyncCommand::Navigate(u) if u == "https://shop.example.com"
    ));
    assert!(matches!(sync.advance(SyncEvent::Navigated(true)), SyncCommand::AddCookie(c) if c.name == "sid"));
    assert!(matches!(sync.advance(SyncEvent::Added(true)), SyncCommand::AddCookie(c) if c.name == "pref"));
    assert!(matches!(
        sync.advance(SyncEvent::Added(true)),
        SyncCommand::Navigate(u) if u == "https://shop.example.com/cart"
    ));
    assert!(matches!(
        sync.advance(SyncEvent::Navigated(true)),
        SyncCommand::Finish(SyncOutcome::Loaded)
    ));
}

#[test]
fn cookies_already_present_need_nothing() {
    let mut sync = new_sync();
    sync.advance(SyncEvent::Begin);
    sync.advance(SyncEvent::FileRead(Some(vec![cookie("sid", Some("example.com"))])));
    let current = vec![("sid".to_string(), Some("shop.example.com".to_string()))];
    assert!(matches!(
        sync.advance(SyncEvent::BrowserCookies(Some(current))),
        SyncCommand::Finish(SyncOutcome::Present)
    ));
}

#[test]
fn no_stored_cookie_for_domain_is_present() {
    let mut sync = new_sync();
    sync.advance(SyncEvent::Begin);
    assert!(matches!(
        sync.advance(SyncEvent::FileRead(Some(vec![cookie("x", Some("other.net"))]))),
        SyncCommand::Finish(SyncOutcome::Present)
    ));
}

#[test]
fn unreadable_file_or_failed_add_fails() {
    let mut sync = new_sync();
    sync.advance(SyncEvent::Begin);
    assert!(matches!(
        sync.advance(SyncEvent::FileRead(None)),
        SyncCommand::Finish(SyncOutcome::Failed)
    ));

    let mut sync = new_sync();
    sync.advance(SyncEvent::Begin);
    sync.advance(SyncEvent::FileRead(Some(vec![cookie("sid", Some("example.com"))])));
    sync.advance(SyncEvent::BrowserCookies(Some(vec![])));
    sync.advance(SyncEvent::Navigated(true));
    assert!(matches!(
        sync.advance(SyncEvent::Added(false)),
        SyncCommand::Finish(SyncOutcome::Failed)
    ));
}
