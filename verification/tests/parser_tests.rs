use vidmerge::series::RongyokParser;
use vidmerge::series::{episode_url, SeriesInfo};
use std::collections::HashMap;

#[test]
fn test_parse_series_url() {
    // Rongyok formats
    assert_eq!(
        RongyokParser::parse_series_url("https://rongyok.com/watch/?series_id=1004"),
        Some(1004)
    );
    assert_eq!(
        RongyokParser::parse_series_url("https://rongyok.com/series/1004/title"),
        Some(1004)
    );

    // Thongyok format
    assert_eq!(
        RongyokParser::parse_series_url(
            "https://thongyok.com/series/1004/%E0%B8%84%E0%B8%B7%E0%B8%99..."
        ),
        Some(1004)
    );

    // Invalid
    assert_eq!(RongyokParser::parse_series_url("https://rongyok.com/invalid"), None);
}

#[test]
fn test_construct_series_url() {
    // Case 1: Rongyok URL (standard)
    let (url, domain) =
        RongyokParser::construct_series_url(1004, Some("https://rongyok.com/watch/?series_id=1004"));
    assert_eq!(url, "https://rongyok.com/watch/?series_id=1004");
    assert_eq!(domain, "https://rongyok.com/");

    // Case 2: Thongyok URL
    let th_url = "https://thongyok.com/series/1004/test-title";
    let (url, domain) = RongyokParser::construct_series_url(1004, Some(th_url));
    assert_eq!(url, th_url);
    assert_eq!(domain, "https://thongyok.com/");

    // Case 3: None (fallback)
    let (url, domain) = RongyokParser::construct_series_url(1004, None);
    assert_eq!(url, "https://rongyok.com/watch/?series_id=1004");
    assert_eq!(domain, "https://rongyok.com/");

    // Case 4: Other domain/format treated as Rongyok if not explicit Thongyok
    let (url, domain) = RongyokParser::construct_series_url(1004, Some("https://other.com/1004"));
    // Falls back to the Rongyok format if not containing "thongyok.com"
    assert_eq!(url, "https://rongyok.com/watch/?series_id=1004");
    assert_eq!(domain, "https://rongyok.com/");
}

#[test]
fn parse_series_url_overflowing_id_is_rejected() {
    // parses the series_id= capture first and gives up when it
    // overflows a 32-bit id, without trying the second format
    assert_eq!(
        RongyokParser::parse_series_url("https://rongyok.com/watch/?series_id=99999999999"),
        None
    );
    // leading zeros are fine
    assert_eq!(
        RongyokParser::parse_series_url("https://rongyok.com/watch/?series_id=0001004x"),
        Some(1004)
    );
}

#[test]
fn episode_url_looks_up_the_map() {
    let mut urls: HashMap<i32, String> = HashMap::new();
    urls.insert(3, String::from("https://example.test/3.mp4"));
    let info = SeriesInfo {
        series_id: 7,
        title: String::from("A Show"),
        total_episodes: 3,
        poster_url: None,
        episode_urls: urls,
    };
    assert_eq!(episode_url(&info, 3).map(|s| s.as_str()), Some("https://example.test/3.mp4"));
    assert!(episode_url(&info, 4).is_none());
}
