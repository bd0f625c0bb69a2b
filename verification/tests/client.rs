use ebobo::client::api::{choose_request, get_request, url, Method, DEFAULT_API_URL};
use ebobo::client::arena::{arena_status, socket_url, status_text, ArenaStatus};
use ebobo::client::routing::{page_for, AppRoutes, Page, NOT_FOUND_TEXT};
use ebobo::shared::AUTH_HEADER;

#[test]
fn url_defaults_to_shuttle_app() {
    assert_eq!(url(None), "https://ebobo.shuttleapp.rs");
    assert_eq!(DEFAULT_API_URL, "https://ebobo.shuttleapp.rs");
}

#[test]
fn url_takes_configured_value() {
    assert_eq!(url(Some("http://localhost:8000")), "http://localhost:8000");
}

#[test]
fn get_request_carries_fingerprint_header() {
    let r = get_request("http://h", "abc");
    assert_eq!(r.method, Method::Get);
    assert_eq!(r.url, "http://h");
    assert_eq!(r.header_name, "EBOBO-AUTH");
    assert_eq!(r.header_name, AUTH_HEADER);
    assert_eq!(r.header_value, "abc");
    assert!(r.body.is_none());
}

#[test]
fn choose_request_posts_fighter_to_choose() {
    let r = choose_request("http://h", "abc", "dragon");
    assert_eq!(r.method, Method::Post);
    assert_eq!(r.url, "http://h/choose");
    assert_eq!(r.header_name, "EBOBO-AUTH");
    assert_eq!(r.header_value, "abc");
    assert_eq!(r.body, Some("dragon".to_string()));
}

#[test]
fn socket_url_puts_fingerprint_in_query() {
    assert_eq!(socket_url("wss://h/fight", "abc"), "wss://h/fight?fp=abc");
}

#[test]
fn arena_searching_without_message() {
    assert_eq!(arena_status("", "abc"), ArenaStatus::Searching);
    assert_eq!(status_text(ArenaStatus::Searching), "searching for opponent...");
}

#[test]
fn arena_won_when_message_names_player() {
    assert_eq!(arena_status("abc", "abc"), ArenaStatus::Won);
    assert_eq!(status_text(ArenaStatus::Won), "you won!");
}

#[test]
fn arena_lost_when_message_names_other() {
    assert_eq!(arena_status("xyz", "abc"), ArenaStatus::Lost);
    assert_eq!(status_text(ArenaStatus::Lost), "you lost.");
}

#[test]
fn routes_map_to_pages() {
    assert_eq!(page_for(AppRoutes::Index), Page::Index);
    assert_eq!(page_for(AppRoutes::Choose), Page::Fighters);
    assert_eq!(page_for(AppRoutes::NotFound), Page::NotFound);
    assert_eq!(NOT_FOUND_TEXT, "404 Page Not Found");
}
