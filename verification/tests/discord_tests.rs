use eorzea_bot::discord::{
    fashion_report_link, get_role_id, server_status_message, welcome_role, RedditPost, Role,
};

fn role(id: u64, name: &str) -> Role {
    Role { id, name: name.to_string() }
}

fn post(title: &str, url: Option<&str>) -> RedditPost {
    RedditPost { title: title.to_string(), url: url.map(|u| u.to_string()) }
}

#[test]
fn role_lookup() {
    let roles = vec![role(1, "Admin"), role(2, "Friends"), role(3, "Friends")];
    assert_eq!(get_role_id(&roles, "Friends"), Some(2));
    assert_eq!(get_role_id(&roles, "Admin"), Some(1));
    assert_eq!(get_role_id(&roles, "friends"), None);
    assert_eq!(get_role_id(&vec![], "Friends"), None);
}

#[test]
fn server_status() {
    assert_eq!(server_status_message(true), "Louisoix is up");
    assert_eq!(server_status_message(false), "Louisoix is down");
}

#[test]
fn fashion_link_of_first_report() {
    let posts = vec![
        post("Weekly Minions", Some("https://a")),
        post("Fashion Report - Full Details - For Week of 1/2", Some("https://b")),
        post("Fashion Report - Full Details - For Week of 1/1", Some("https://c")),
    ];
    assert_eq!(fashion_report_link(&posts), Some("https://b".to_string()));
}

#[test]
fn fashion_report_without_link_posts_nothing() {
    let posts = vec![
        post("Fashion Report - Full Details", None),
        post("Fashion Report - Full Details", Some("https://c")),
    ];
    assert_eq!(fashion_report_link(&posts), None);
}

#[test]
fn no_fashion_report_posts_empty_text() {
    let posts = vec![post("fashion report - full details", Some("https://a"))];
    assert_eq!(fashion_report_link(&posts), Some(String::new()));
    assert_eq!(fashion_report_link(&vec![]), Some(String::new()));
}

#[test]
fn welcome_role_is_friends() {
    let roles = vec![role(1, "Admin"), role(9, "Friends")];
    assert_eq!(welcome_role(&roles), Some(9));
    assert_eq!(welcome_role(&vec![role(1, "Admin")]), None);
}
