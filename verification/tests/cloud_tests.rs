use bangumi_download::cloud_manager::{
    CloudDownloadResult, Task, check_content_length, check_file_hash, extract_magnet_hash, hashes_of_results,
    login_status_after, needs_next_page, next_listing, tasks_in, uid_from_cookies,
};
use bangumi_download::errors::{CloudError, DownloadError};

#[test]
fn test_extract_magnet_hash() {
    let magnet_links = [
        "magnet:?xt=urn:btih:40882fa906a4fe9da7b57fa53a7bd880ad3244ce&tr=http%3a%2f%2ft.nyaatracker.com%2fannounce&tr=http%3a%2f%2ftracker.kamigami.org%3a2710%2fannounce&tr=http%3a%2f%2fshare.camoe.cn%3a8080%2fannounce&tr=http%3a%2f%2fopentracker.acgnx.se%2fannounce&tr=http%3a%2f%2fanidex.moe%3a6969%2fannounce&tr=http%3a%2f%2ft.acg.rip%3a6699%2fannounce&tr=https%3a%2f%2ftr.bangumi.moe%3a9696%2fannounce&tr=udp%3a%2f%2ftr.bangumi.moe%3a6969%2fannounce&tr=http%3a%2f%2fopen.acgtracker.com%3a1096%2fannounce&tr=udp%3a%2f%2ftracker.opentrackr.org%3a1337%2fannounce",
        "magnet:?xt=urn:btih:ABCDEFGHIJKLMNOPQRSTUV234567ABCD&tr=http%3a%2f%2ft.nyaatracker.com%2fannounce",
        "magnet:?dn=test&xt=urn:btih:ABCDEFGHIJKLMNOPQRSTUVWXYZ234567&tr=udp://...",
        "magnet:?xt=urn:btih:INVALIDHASH",
    ];
    let results = [
        Some("40882fa906a4fe9da7b57fa53a7bd880ad3244ce".to_string()),
        Some("ABCDEFGHIJKLMNOPQRSTUV234567ABCD".to_string()),
        Some("ABCDEFGHIJKLMNOPQRSTUVWXYZ234567".to_string()),
        None,
    ];
    for (i, link) in magnet_links.iter().enumerate() {
        assert_eq!(extract_magnet_hash(link), results[i]);
        println!("Success: {}", i);
    }
}

#[test]
fn magnet_hash_prefers_forty_hex_digits() {
    // forty hexadecimal digits that are also base-32 digits are taken whole
    let link = "xt=urn:btih:ABCDEF2345ABCDEF2345ABCDEF2345ABCDEF2345";
    assert_eq!(extract_magnet_hash(link), Some("ABCDEF2345ABCDEF2345ABCDEF2345ABCDEF2345".to_string()));
}

fn result(hash: Option<&str>, url: &str) -> CloudDownloadResult {
    CloudDownloadResult { errcode: 0, hash: hash.map(|h| h.to_string()), url: url.to_string() }
}

#[test]
fn hashes_come_from_results_or_links() {
    let results = vec![
        result(Some("aaaa"), "ignored"),
        result(None, "magnet:?xt=urn:btih:ABCDEFGHIJKLMNOPQRSTUVWXYZ234567"),
    ];
    let hashes = hashes_of_results(results).unwrap();
    assert_eq!(hashes, vec!["aaaa".to_string(), "ABCDEFGHIJKLMNOPQRSTUVWXYZ234567".to_string()]);
}

#[test]
fn a_link_without_hash_is_an_error() {
    let results = vec![result(Some("aaaa"), ""), result(None, "magnet:?xt=urn:btih:SHORT")];
    match hashes_of_results(results) {
        Err(CloudError::Param(m)) => assert_eq!(m, "invalid magnet link"),
        other => panic!("unexpected: {:?}", other),
    }
}

fn task(hash: &str) -> Task {
    Task {
        hash: hash.to_string(),
        percent_done: 0,
        name: hash.to_string(),
        status: 0,
        folder_id: String::new(),
        file_id: String::new(),
    }
}

#[test]
fn only_wanted_tasks_are_kept_in_order() {
    let tasks = vec![task("a"), task("b"), task("c"), task("a")];
    let wanted = vec!["c".to_string(), "a".to_string()];
    let kept = tasks_in(tasks, &wanted);
    let names: Vec<&str> = kept.iter().map(|t| t.hash.as_str()).collect();
    assert_eq!(names, vec!["a", "c", "a"]);
}

#[test]
fn paging_goes_on_while_tasks_are_missing() {
    assert!(needs_next_page(1, 2, 1, 3));
    assert!(!needs_next_page(2, 2, 1, 3));
    assert!(!needs_next_page(1, 2, 3, 3));
    assert_eq!(next_listing(20, 45), Some((20, 25)));
    assert_eq!(next_listing(45, 45), None);
}

#[test]
fn uid_is_read_from_the_first_cookie() {
    assert_eq!(uid_from_cookies("UID=123_A1_B; CID=abc; SEID=x; KID=y").unwrap(), "123");
    assert_eq!(uid_from_cookies("UID=456; CID=abc").unwrap(), "456");
    match uid_from_cookies("no cookies here; UID=1") {
        Err(CloudError::Cookies(m)) => assert_eq!(m, "invalid cookies!"),
        other => panic!("unexpected: {:?}", other),
    }
}

#[test]
fn content_length_must_match_size() {
    assert!(check_content_length(Some(10), 10).is_ok());
    match check_content_length(Some(9), 10) {
        Err(DownloadError::ContentLength(m)) => assert_eq!(m, "inconsistent content length"),
        other => panic!("unexpected: {:?}", other),
    }
    match check_content_length(None, 10) {
        Err(DownloadError::ContentLength(m)) => assert_eq!(m, "Can not get CONTENT_LENGTH"),
        other => panic!("unexpected: {:?}", other),
    }
}

#[test]
fn file_hash_is_compared_in_upper_case() {
    assert!(check_file_hash("abcdef0123".to_string(), "ABCDEF0123".to_string()).is_ok());
    match check_file_hash("abcd".to_string(), "ABCE".to_string()) {
        Err(DownloadError::Hash { expected, found }) => {
            assert_eq!(expected, "ABCD");
            assert_eq!(found, "ABCE");
        }
        other => panic!("unexpected: {:?}", other),
    }
}

#[test]
fn an_api_error_means_expired_cookies() {
    assert!(login_status_after(Ok(())).unwrap());
    assert!(!login_status_after(Err(CloudError::Api("expired".to_string()))).unwrap());
    assert!(matches!(login_status_after(Err(CloudError::Cookies("x".to_string()))), Err(CloudError::Cookies(_))));
}
