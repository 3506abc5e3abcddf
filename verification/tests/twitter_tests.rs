use circle_checker::circle::UserProfile;
use circle_checker::twitter::{
    get_pinned_tweet_status, is_pin_entered, pin_icon_matches, pinned_tweet_status_of_page, tweet_id_of, verified_account, AuthNext, Twitter, User,
    UserPages, PIN_ICON_PATH,
};

fn stored() -> Twitter {
    Twitter {
        consummer_key: "".to_string(),
        consummer_secret: "".to_string(),
        access_token: "tok".to_string(),
        access_token_secret: "toksec".to_string(),
        account: User { id: 42, name: "me".to_string(), url: "https://twitter.com/me".to_string() },
    }
}

#[test]
fn new_without_token_file() {
    let t = Twitter::new("ck".to_string(), "cs".to_string(), None);
    assert_eq!(t.consummer_key, "ck");
    assert_eq!(t.consummer_secret, "cs");
    assert_eq!(t.access_token, "");
    assert_eq!(t.access_token_secret, "");
    assert_eq!(t.account.id, 0);
    assert!(!t.account.existed());
}

#[test]
fn new_with_token_file() {
    let t = Twitter::new("ck".to_string(), "cs".to_string(), Some(stored()));
    assert_eq!(t.consummer_key, "ck");
    assert_eq!(t.access_token, "tok");
    assert_eq!(t.access_token_secret, "toksec");
    assert_eq!(t.account.id, 42);
    assert_eq!(t.account.name, "me");
    assert!(t.account.existed());
}

#[test]
fn store_then_load_restores_state() {
    let mut t = Twitter::new("ck".to_string(), "cs".to_string(), None);
    t.oauth_process("a".to_string(), "b".to_string(), 7, "screen".to_string());
    let data = t.store_data();
    assert_eq!(data.consummer_key, "");
    assert_eq!(data.consummer_secret, "");
    let back = Twitter::new("ck".to_string(), "cs".to_string(), Some(data));
    assert_eq!(back.consummer_key, t.consummer_key);
    assert_eq!(back.consummer_secret, t.consummer_secret);
    assert_eq!(back.access_token, t.access_token);
    assert_eq!(back.access_token_secret, t.access_token_secret);
    assert_eq!(back.account.id, t.account.id);
    assert_eq!(back.account.name, t.account.name);
    assert_eq!(back.account.url, t.account.url);
}

#[test]
fn oauth_process_records_account() {
    let mut t = Twitter::new("ck".to_string(), "cs".to_string(), None);
    t.oauth_process("key".to_string(), "secret".to_string(), 99, "circle".to_string());
    assert_eq!(t.access_token, "key");
    assert_eq!(t.access_token_secret, "secret");
    assert_eq!(t.account.id, 99);
    assert_eq!(t.account.name, "circle");
    assert_eq!(t.account.url, "https://twitter.com/circle");
    assert!(t.account.existed());
    assert_eq!(t.consummer_key, "ck");
}

#[test]
fn authenticate_decisions() {
    let mut t = Twitter::new("ck".to_string(), "cs".to_string(), Some(stored()));
    let r = t.authenticate(User::default());
    assert!(matches!(r, AuthNext::PinAuthorization));
    assert_eq!(t.account.id, 42);
    let r = t.authenticate(verified_account(Some((5, "Display".to_string()))));
    assert!(matches!(r, AuthNext::Verified));
    assert_eq!(t.account.id, 5);
    assert_eq!(t.account.name, "Display");
    assert_eq!(t.account.url, "https://twitter.com/Display");
    assert_eq!(t.access_token, "tok");
}

#[test]
fn verified_account_values() {
    let u = verified_account(None);
    assert!(!u.existed());
    assert_eq!(u.name, "");
    let u = verified_account(Some((0, "".to_string())));
    assert!(u.existed());
    assert_eq!(u.url, "https://twitter.com/");
}

#[test]
fn default_user_is_unknown() {
    assert!(!User::default().existed());
    assert!(User { id: 1, name: "".to_string(), url: "".to_string() }.existed());
    assert!(User { id: 0, name: "n".to_string(), url: "".to_string() }.existed());
    assert!(User { id: 0, name: "".to_string(), url: "u".to_string() }.existed());
}

fn profile(s: &str) -> UserProfile {
    UserProfile { screen_name: s.to_string(), name: s.to_string(), url: None, profile_image_url: "".to_string() }
}

#[test]
fn pages_accumulate_until_zero_cursor() {
    let mut p = UserPages::new();
    assert_eq!(p.next_cursor, -1);
    assert!(p.receive(vec![profile("a"), profile("b")], 1234));
    assert_eq!(p.next_cursor, 1234);
    assert!(!p.receive(vec![profile("c")], 0));
    let names: Vec<&str> = p.users.iter().map(|u| u.screen_name.as_str()).collect();
    assert_eq!(names, vec!["a", "b", "c"]);
}

#[test]
fn pin_prompt_input() {
    assert!(!is_pin_entered("\n"));
    assert!(!is_pin_entered("   \r\n"));
    assert!(is_pin_entered(" 1234567\n"));
}

#[test]
fn pinned_status_decisions() {
    assert!(pin_icon_matches(Some(PIN_ICON_PATH)));
    assert!(!pin_icon_matches(Some("M0 0z")));
    assert!(!pin_icon_matches(None));
    assert!(PIN_ICON_PATH.starts_with("M20.235 14.61c"));
    assert_eq!(get_pinned_tweet_status(Some(PIN_ICON_PATH), Some("  ")), "");
    assert_eq!(get_pinned_tweet_status(Some(PIN_ICON_PATH), Some("/alice/status/123")), "123");
    assert_eq!(get_pinned_tweet_status(Some(PIN_ICON_PATH), Some(" /u/status/1 ")), "1");
    assert_eq!(get_pinned_tweet_status(Some("M0 0z"), Some("/u/status/1")), "");
    assert_eq!(get_pinned_tweet_status(None, None), "");
}

#[test]
fn tweet_id_from_status_link() {
    assert_eq!(tweet_id_of("/alice/status/123"), "123");
    assert_eq!(tweet_id_of("https://twitter.com/bob/status/98765?s=20"), "98765");
    assert_eq!(tweet_id_of("/a/status/1/status/2"), "1");
    assert_eq!(tweet_id_of("/alice/likes"), "");
    assert_eq!(tweet_id_of("/alice/status/"), "");
    assert_eq!(tweet_id_of("/status/"), "");
    assert_eq!(tweet_id_of(""), "");
}

fn page(article: &str) -> String {
    format!("<html><body><header>top</header>{}</body></html>", article)
}

#[test]
fn pinned_tweet_of_page() {
    let pinned = page(&format!(
        "<article><svg><g><path d=\"{}\"></path></g></svg><a href=\"/alice/status/123\"><time>1h</time></a></article>",
        PIN_ICON_PATH
    ));
    assert_eq!(pinned_tweet_status_of_page(&pinned), Some("123".to_string()));
    let other_icon = page("<article><svg><g><path d=\"M0 0z\"></path></g></svg><a href=\"/a/status/9\"><time>1h</time></a></article>");
    assert_eq!(pinned_tweet_status_of_page(&other_icon), Some("".to_string()));
    let no_icon = page("<article><p>text</p></article>");
    assert_eq!(pinned_tweet_status_of_page(&no_icon), Some("".to_string()));
    assert_eq!(pinned_tweet_status_of_page(&page("<div>no article</div>")), None);
    let no_d = page("<article><svg><g><path></path></g></svg></article>");
    assert_eq!(pinned_tweet_status_of_page(&no_d), None);
    let no_link = page(&format!("<article><svg><g><path d=\"{}\"></path></g></svg></article>", PIN_ICON_PATH));
    assert_eq!(pinned_tweet_status_of_page(&no_link), None);
    let blank_link = page(&format!(
        "<article><svg><g><path d=\"{}\"></path></g></svg><a href=\"  \"><time>1h</time></a></article>",
        PIN_ICON_PATH
    ));
    assert_eq!(pinned_tweet_status_of_page(&blank_link), Some("".to_string()));
}
