use crate::errors::{CloudError, DownloadError};
use sha1::Digest;
use crate::text::{chars_of, clone_strings, string_of};
use vstd::prelude::*;

verus! {

/// The user agent of a phone browser, for the cloud's mobile pages.
pub const MOBILE_UA: &'static str = "Mozilla/5.0 (iPhone; CPU iPhone OS 18_0 like Mac OS X) AppleWebKit/605.1.15 (KHTML, like Gecko) Mobile/15E148 MicroMessenger/8.0.50(0x1800323d) NetType/WIFI Language/zh_CN";

/// One page of the cloud's offline download tasks.
#[derive(Debug)]
pub struct TasksResponse {
    pub page: i32,
    pub page_count: i32,
    pub tasks: Vec<Task>,
}

/// An offline download task of the cloud.
#[derive(Debug)]
pub struct Task {
    pub hash: String,
    pub percent_done: i32,
    pub name: String,
    pub status: i32,
    /// The id of the folder itself, or of the file's parent folder.
    pub folder_id: String,
    pub file_id: String,
}

/// The cloud's answer to a request to add download tasks.
#[derive(Debug)]
pub struct CloudDownloadResponse {
    pub result: Vec<CloudDownloadResult>,
}

/// The outcome of adding one download task.
#[derive(Debug)]
pub struct CloudDownloadResult {
    pub errcode: i32,
    pub hash: Option<String>,
    pub url: String,
}

/// A file or folder in the cloud.
#[derive(Debug)]
pub struct FileInfo {
    /// The id of the folder itself, or of the file's parent folder.
    pub folder_id: String,
    /// Only a file has one.
    pub file_id: Option<String>,
    pub name: String,
    /// Only a file has one.
    pub sha1: Option<String>,
    pub size: Option<u64>,
    pub pick_code: String,
}

/// The cloud's answer about a folder: its name.
#[derive(Debug)]
pub struct FileInfoResponse {
    pub name: String,
}

/// A file or folder in the cloud, with the path of folders it is found under.
#[derive(Debug)]
pub struct FileWithPath {
    pub info: FileInfo,
    pub path: std::path::PathBuf,
}

/// One page of a folder's content.
#[derive(Debug)]
pub struct FileListResponse {
    pub count: i32,
    pub files: Vec<FileInfo>,
}

/// An error the cloud answers with.
pub struct Errors {
    pub msg: String,
    pub error_no: i32,
}

/// A hexadecimal digit, in either case.
pub open spec fn is_hex_char(c: char) -> bool {
    ('0' <= c && c <= '9') || ('a' <= c && c <= 'f') || ('A' <= c && c <= 'F')
}

/// A digit of the base-32 alphabet: `A` to `Z`, `2` to `7`.
pub open spec fn is_base32_char(c: char) -> bool {
    ('A' <= c && c <= 'Z') || ('2' <= c && c <= '7')
}

/// The `n` characters of `s` from `i` on, when there are so many and all are
/// hexadecimal digits.
pub open spec fn hex_run(s: Seq<char>, i: int, n: int) -> bool {
    0 <= i && i + n <= s.len() && forall|k: int| i <= k < i + n ==> is_hex_char(#[trigger] s[k])
}

/// The `n` characters of `s` from `i` on, when there are so many and all are
/// base-32 digits.
pub open spec fn base32_run(s: Seq<char>, i: int, n: int) -> bool {
    0 <= i && i + n <= s.len() && forall|k: int| i <= k < i + n ==> is_base32_char(#[trigger] s[k])
}

/// The hash of a match of `xt=urn:btih:([a-fA-F0-9]{40}|[A-Z2-7]{32})` that
/// starts at `i`: forty hexadecimal digits when they are there, else
/// thirty-two base-32 digits.
pub open spec fn hash_at(s: Seq<char>, i: int) -> Option<Seq<char>> {
    let prefix = "xt=urn:btih:"@;
    if 0 <= i && i + prefix.len() <= s.len() && s.subrange(i, i + prefix.len()) == prefix {
        let j = i + prefix.len();
        if hex_run(s, j, 40) {
            Some(s.subrange(j, j + 40))
        } else if base32_run(s, j, 32) {
            Some(s.subrange(j, j + 32))
        } else {
            None
        }
    } else {
        None
    }
}

/// The hash of the leftmost match from `i` on.
pub open spec fn magnet_hash_from(s: Seq<char>, i: int) -> Option<Seq<char>>
    decreases s.len() + 1 - i,
{
    if i < 0 || i > s.len() {
        None
    } else {
        match hash_at(s, i) {
            Some(h) => Some(h),
            None => magnet_hash_from(s, i + 1),
        }
    }
}

/// The info hash of a magnet link: the first group of the leftmost match.
pub open spec fn magnet_hash(link: Seq<char>) -> Option<Seq<char>> {
    magnet_hash_from(link, 0)
}

/// The first group of the leftmost match of
/// `xt=urn:btih:([a-fA-F0-9]{40}|[A-Z2-7]{32})` in `link`, through
/// `regex::Regex::captures`. Claimed: it is `magnet_hash`, the leftmost-first
/// match that the `regex` crate documents, with the first alternative tried
/// first.
#[verifier::external_body]
fn capture_magnet_hash(link: &str) -> (r: Option<String>)
    ensures
        match r {
            Some(h) => magnet_hash(link@) == Some(h@),
            None => magnet_hash(link@) is None,
        },
{
    let re = regex::Regex::new(r"xt=urn:btih:([a-fA-F0-9]{40}|[A-Z2-7]{32})").expect("regex should be valid!");
    match re.captures(link) {
        Some(caps) => match caps.get(1) {
            Some(m) => Some(m.as_str().to_string()),
            None => None,
        },
        None => None,
    }
}

/// The info hash of a magnet link, when it has one.
pub fn extract_magnet_hash(link: &str) -> (r: Option<String>)
    ensures
        match r {
            Some(h) => magnet_hash(link@) == Some(h@),
            None => magnet_hash(link@) is None,
        },
{
    capture_magnet_hash(link)
}

/// The info hashes of added download tasks: the hash the cloud gives, or the
/// one read from the task's magnet link; a link without one is an error.
pub open spec fn result_hashes(results: Seq<CloudDownloadResult>) -> Option<Seq<Seq<char>>>
    decreases results.len(),
{
    if results.len() == 0 {
        Some(Seq::empty())
    } else {
        match result_hashes(results.drop_last()) {
            None => None,
            Some(hs) => match results.last().hash {
                Some(h) => Some(hs.push(h@)),
                None => match magnet_hash(results.last().url@) {
                    Some(h) => Some(hs.push(h)),
                    None => None,
                },
            },
        }
    }
}

/// The info hashes of the tasks the cloud added, in order.
pub fn hashes_of_results(results: Vec<CloudDownloadResult>) -> (r: Result<Vec<String>, CloudError>)
    ensures
        match result_hashes(results@) {
            Some(hs) => r matches Ok(v) && v@.map_values(|s: String| s@) == hs,
            None => r matches Err(CloudError::Param(m)) && m@ == "invalid magnet link"@,
        },
{
    let mut out: Vec<String> = Vec::new();
    let mut i: usize = 0;
    while i < results.len()
        invariant
            i <= results@.len(),
            result_hashes(results@.take(i as int)) == Some(out@.map_values(|s: String| s@)),
        decreases results@.len() - i,
    {
        proof { assert(results@.take(i + 1).drop_last() =~= results@.take(i as int)); }
        let item = &results[i];
        match &item.hash {
            Some(h) => {
                out.push(h.clone());
            },
            None => match extract_magnet_hash(item.url.as_str()) {
                Some(h) => {
                    out.push(h);
                },
                None => {
                    proof {
                        let t = results@.take(i + 1);
                        assert(t.last() == results@[i as int]);
                        assert(result_hashes(results@) is None) by {
                            lemma_result_hashes_prefix_none(results@, i + 1);
                        }
                    }
                    return Err(CloudError::Param("invalid magnet link".to_owned()));
                },
            },
        }
        proof {
            assert(out@.map_values(|s: String| s@) =~= out@.drop_last().map_values(|s: String| s@).push(out@.last()@));
            assert(out@.drop_last() =~= out@.take(out@.len() - 1));
        }
        i = i + 1;
    }
    proof { assert(results@.take(results@.len() as int) =~= results@); }
    Ok(out)
}

proof fn lemma_result_hashes_prefix_none(results: Seq<CloudDownloadResult>, n: int)
    requires
        0 <= n <= results.len(),
        result_hashes(results.take(n)) is None,
    ensures
        result_hashes(results) is None,
    decreases results.len() - n,
{
    if n < results.len() {
        assert(results.take(n + 1).drop_last() =~= results.take(n));
        lemma_result_hashes_prefix_none(results, n + 1);
    } else {
        assert(results.take(n) =~= results);
    }
}

/// Whether some of `hashes` is `h`.
pub open spec fn wanted(hashes: Seq<String>, h: Seq<char>) -> bool {
    exists|i: int| 0 <= i < hashes.len() && #[trigger] hashes[i]@ == h
}

/// The tasks whose hash is wanted, in order.
pub open spec fn wanted_tasks(tasks: Seq<Task>, hashes: Seq<String>) -> Seq<Task>
    decreases tasks.len(),
{
    if tasks.len() == 0 {
        Seq::empty()
    } else {
        wanted_tasks(tasks.drop_last(), hashes) + if wanted(hashes, tasks.last().hash@) {
            seq![tasks.last()]
        } else {
            Seq::empty()
        }
    }
}

fn is_wanted(hashes: &[String], h: &String) -> (r: bool)
    ensures
        r == wanted(hashes@, h@),
{
    let mut i: usize = 0;
    while i < hashes.len()
        invariant
            i <= hashes@.len(),
            forall|j: int| 0 <= j < i ==> hashes@[j]@ != h@,
        decreases hashes@.len() - i,
    {
        if hashes[i] == *h {
            assert(hashes@[i as int]@ == h@);
            return true;
        }
        i = i + 1;
    }
    false
}

/// The tasks of a page whose hash is among `hashes`, in order.
pub fn tasks_in(tasks: Vec<Task>, hashes: &[String]) -> (r: Vec<Task>)
    ensures
        r@ == wanted_tasks(tasks@, hashes@),
{
    let mut tasks = tasks;
    let ghost all = tasks@;
    let mut kept_rev: Vec<Task> = Vec::new();
    while tasks.len() > 0
        invariant
            wanted_tasks(all, hashes@) == wanted_tasks(tasks@, hashes@) + kept_rev@.reverse(),
        decreases tasks@.len(),
    {
        let ghost before = tasks@;
        let ghost rev_before = kept_rev@;
        match tasks.pop() {
            Some(t) => {
                proof {
                    assert(before.drop_last() == tasks@);
                    assert(before.last() == t);
                }
                if is_wanted(hashes, &t.hash) {
                    kept_rev.push(t);
                    proof {
                        assert(kept_rev@.reverse() =~= seq![t] + rev_before.reverse());
                    }
                } else {
                    proof {
                        assert(wanted_tasks(before, hashes@) =~= wanted_tasks(tasks@, hashes@));
                    }
                }
            },
            None => {},
        }
    }
    let ghost total = kept_rev@.reverse();
    let mut out: Vec<Task> = Vec::new();
    proof { assert(out@ + kept_rev@.reverse() =~= total); }
    while kept_rev.len() > 0
        invariant
            out@ + kept_rev@.reverse() == total,
        decreases kept_rev@.len(),
    {
        let ghost before = kept_rev@;
        match kept_rev.pop() {
            Some(x) => {
                proof {
                    assert(before == kept_rev@.push(x));
                    assert(before.reverse() =~= seq![x] + kept_rev@.reverse());
                }
                out.push(x);
                proof { assert(out@ + kept_rev@.reverse() =~= total); }
            },
            None => {},
        }
    }
    proof {
        assert(kept_rev@.reverse() =~= Seq::<Task>::empty());
        assert(out@ + Seq::<Task>::empty() =~= out@);
        assert(wanted_tasks(tasks@, hashes@) =~= Seq::<Task>::empty());
        assert(Seq::<Task>::empty() + total =~= total);
    }
    out
}

/// Whether the task list is read further: some wanted task is still missing
/// and pages are left.
pub fn needs_next_page(found: usize, wanted_count: usize, page: i32, page_count: i32) -> (r: bool)
    ensures
        r == (found < wanted_count && page < page_count),
{
    found < wanted_count && page < page_count
}

/// The next listing of a folder's content: from the files already listed, as
/// many as are left; none when all are listed.
pub fn next_listing(current: i32, count: i32) -> (r: Option<(i32, i32)>)
    requires
        current >= 0,
    ensures
        current < count ==> r == Some((current, (count - current) as i32)),
        current >= count ==> r is None,
{
    if current < count {
        Some((current, count - current))
    } else {
        None
    }
}

/// The text of `s` before the first `c`, all of it when there is none.
pub open spec fn before_char(s: Seq<char>, c: char) -> Seq<char>
    decreases s.len(),
{
    if s.len() == 0 {
        s
    } else if s[0] == c {
        Seq::empty()
    } else {
        seq![s[0]] + before_char(s.drop_first(), c)
    }
}

/// The text of `s` after the first `c`, when there is one.
pub open spec fn after_char(s: Seq<char>, c: char) -> Option<Seq<char>>
    decreases s.len(),
{
    if s.len() == 0 {
        None
    } else if s[0] == c {
        Some(s.drop_first())
    } else {
        after_char(s.drop_first(), c)
    }
}

/// The user id in the cookie header: in its first cookie, the text after the
/// first `=` up to the next `=`, and of that, the text before the first `_`.
pub open spec fn cookie_uid(cookies: Seq<char>) -> Option<Seq<char>> {
    match after_char(before_char(cookies, ';'), '=') {
        Some(v) => Some(before_char(before_char(v, '='), '_')),
        None => None,
    }
}

fn before_char_exec(s: &[char], c: char) -> (r: Vec<char>)
    ensures
        r@ == before_char(s@, c),
{
    let mut i: usize = 0;
    while i < s.len() && s[i] != c
        invariant
            i <= s@.len(),
            forall|j: int| 0 <= j < i ==> s@[j] != c,
        decreases s@.len() - i,
    {
        i = i + 1;
    }
    proof { lemma_before_char(s@, c, i as int); }
    let mut out: Vec<char> = Vec::new();
    let mut k: usize = 0;
    while k < i
        invariant
            k <= i <= s@.len(),
            out@ == s@.take(k as int),
        decreases i - k,
    {
        out.push(s[k]);
        proof { assert(s@.take(k + 1) =~= s@.take(k as int).push(s@[k as int])); }
        k = k + 1;
    }
    out
}

proof fn lemma_before_char(s: Seq<char>, c: char, i: int)
    requires
        0 <= i <= s.len(),
        forall|j: int| 0 <= j < i ==> s[j] != c,
        i == s.len() || s[i] == c,
    ensures
        before_char(s, c) == s.take(i),
    decreases s.len(),
{
    if s.len() == 0 {
        assert(s.take(i) =~= s);
    } else if s[0] == c {
        assert(i == 0);
        assert(s.take(0) =~= Seq::<char>::empty());
    } else {
        assert(i > 0);
        let t = s.drop_first();
        assert forall|j: int| 0 <= j < i - 1 implies t[j] != c by {
            assert(t[j] == s[j + 1]);
        }
        if i < s.len() {
            assert(t[i - 1] == s[i]);
        }
        lemma_before_char(t, c, i - 1);
        assert(seq![s[0]] + t.take(i - 1) =~= s.take(i));
    }
}

proof fn lemma_after_char(s: Seq<char>, c: char, i: int)
    requires
        0 <= i <= s.len(),
        forall|j: int| 0 <= j < i ==> s[j] != c,
        i == s.len() || s[i] == c,
    ensures
        after_char(s, c) == if i < s.len() { Some(s.skip(i + 1)) } else { None::<Seq<char>> },
    decreases s.len(),
{
    if s.len() == 0 {
    } else if s[0] == c {
        assert(i == 0);
        assert(s.drop_first() =~= s.skip(1));
    } else {
        let t = s.drop_first();
        assert forall|j: int| 0 <= j < i - 1 implies t[j] != c by {
            assert(t[j] == s[j + 1]);
        }
        if i < s.len() {
            assert(t[i - 1] == s[i]);
            assert(t.skip(i) =~= s.skip(i + 1));
        }
        lemma_after_char(t, c, i - 1);
    }
}

fn after_char_exec(s: &[char], c: char) -> (r: Option<Vec<char>>)
    ensures
        match r {
            Some(v) => after_char(s@, c) == Some(v@),
            None => after_char(s@, c) is None,
        },
{
    let mut i: usize = 0;
    while i < s.len() && s[i] != c
        invariant
            i <= s@.len(),
            forall|j: int| 0 <= j < i ==> s@[j] != c,
        decreases s@.len() - i,
    {
        i = i + 1;
    }
    proof { lemma_after_char(s@, c, i as int); }
    if i == s.len() {
        return None;
    }
    let mut out: Vec<char> = Vec::new();
    let mut k: usize = i + 1;
    while k < s.len()
        invariant
            i < k <= s@.len(),
            out@ == s@.subrange(i + 1, k as int),
        decreases s@.len() - k,
    {
        out.push(s[k]);
        proof { assert(s@.subrange(i + 1, k + 1) =~= s@.subrange(i + 1, k as int).push(s@[k as int])); }
        k = k + 1;
    }
    proof { assert(s@.subrange(i + 1, s@.len() as int) =~= s@.skip(i + 1)); }
    Some(out)
}

/// The user id in the login cookies, which deleting a task needs.
pub fn uid_from_cookies(cookies: &str) -> (r: Result<String, CloudError>)
    ensures
        match cookie_uid(cookies@) {
            Some(u) => r matches Ok(s) && s@ == u,
            None => r matches Err(CloudError::Cookies(m)) && m@ == "invalid cookies!"@,
        },
{
    let cs = chars_of(cookies);
    let first = before_char_exec(cs.as_slice(), ';');
    match after_char_exec(first.as_slice(), '=') {
        Some(v) => {
            let field = before_char_exec(v.as_slice(), '=');
            let uid = before_char_exec(field.as_slice(), '_');
            Ok(string_of(uid.as_slice()))
        },
        None => Err(CloudError::Cookies("invalid cookies!".to_owned())),
    }
}

/// Whether the length a download announces fits the file's size: a missing
/// length, and one that differs from the size, are errors.
pub fn check_content_length(content_length: Option<u64>, size: u64) -> (r: Result<(), DownloadError>)
    ensures
        content_length is None ==> (r matches Err(DownloadError::ContentLength(m)) && m@ == "Can not get CONTENT_LENGTH"@),
        content_length matches Some(n) ==> (n == size <==> r is Ok),
        content_length matches Some(n) && n != size ==> (r matches Err(DownloadError::ContentLength(m))
            && m@ == "inconsistent content length"@),
{
    match content_length {
        None => Err(DownloadError::ContentLength("Can not get CONTENT_LENGTH".to_owned())),
        Some(n) => if n != size {
            Err(DownloadError::ContentLength("inconsistent content length".to_owned()))
        } else {
            Ok(())
        },
    }
}

/// A character in upper case when it is an ASCII lower-case letter.
pub open spec fn ascii_upper(c: char) -> char {
    if 'a' <= c && c <= 'z' {
        ((c as u32) - 32) as char
    } else {
        c
    }
}

/// A text with its ASCII letters in upper case, as `make_ascii_uppercase` makes it.
pub open spec fn ascii_uppercase(s: Seq<char>) -> Seq<char> {
    s.map_values(|c: char| ascii_upper(c))
}

fn ascii_upper_char(c: char) -> (r: char)
    ensures
        r == ascii_upper(c),
{
    if 'a' <= c && c <= 'z' {
        let b: u8 = (c as u8) - 32;
        proof { assert(b == (c as u32) - 32); }
        b as char
    } else {
        c
    }
}

/// Compares the SHA-1 of a downloaded file, written in upper case, with the
/// hash the cloud announced, in upper case; a difference is an error that
/// names both.
pub fn check_file_hash(hash: String, found: String) -> (r: Result<(), DownloadError>)
    ensures
        ascii_uppercase(hash@) == found@ ==> r is Ok,
        ascii_uppercase(hash@) != found@ ==> (r matches Err(DownloadError::Hash { expected, found: f })
            && expected@ == ascii_uppercase(hash@) && f@ == found@),
{
    let cs = chars_of(hash.as_str());
    let mut up: Vec<char> = Vec::new();
    let mut i: usize = 0;
    while i < cs.len()
        invariant
            i <= cs@.len(),
            up@ == ascii_uppercase(cs@.take(i as int)),
        decreases cs@.len() - i,
    {
        up.push(ascii_upper_char(cs[i]));
        proof { assert(ascii_uppercase(cs@.take(i + 1)) =~= ascii_uppercase(cs@.take(i as int)).push(ascii_upper(cs@[i as int]))); }
        i = i + 1;
    }
    proof { assert(cs@.take(cs@.len() as int) =~= cs@); }
    let expected = string_of(up.as_slice());
    if found == expected {
        Ok(())
    } else {
        Err(DownloadError::Hash { expected, found })
    }
}

/// A file or folder still to visit in a walk over a cloud folder, with the
/// names of the folders it lies in below the folder walked.
#[derive(Debug)]
pub struct WalkEntry {
    pub info: FileInfo,
    pub dirs: Vec<String>,
}

/// What a walk over a cloud folder does next.
#[derive(Debug)]
pub enum WalkAction {
    /// Nothing is left to visit.
    Done,
    /// A file to download, with its size.
    Download { entry: WalkEntry, size: u64 },
    /// A file without a size, which cannot be downloaded.
    MissingSize,
    /// A folder to list; what it holds lies in `dirs`.
    List { folder_id: String, dirs: Vec<String> },
}

/// The next step of a walk: the entry visited last in `pending` is taken; a
/// file is downloaded when it has a size, and a folder is listed under its
/// own name.
pub fn walk_step(pending: Vec<WalkEntry>) -> (r: (Vec<WalkEntry>, WalkAction))
    ensures
        pending@.len() == 0 ==> r.0@ == pending@ && r.1 is Done,
        pending@.len() > 0 ==> {
            let last = pending@.last();
            &&& r.0@ == pending@.drop_last()
            &&& match last.info.file_id {
                Some(_) => match last.info.size {
                    Some(n) => r.1 == WalkAction::Download { entry: last, size: n },
                    None => r.1 is MissingSize,
                },
                None => r.1 matches WalkAction::List { folder_id, dirs } && folder_id == last.info.folder_id
                    && dirs@ == last.dirs@.push(last.info.name),
            }
        },
{
    let mut pending = pending;
    let ghost before = pending@;
    match pending.pop() {
        None => (pending, WalkAction::Done),
        Some(entry) => {
            proof { assert(entry == before.last() && pending@ == before.drop_last()); }
            match entry.info.file_id {
                Some(_) => match entry.info.size {
                    Some(n) => (pending, WalkAction::Download { entry, size: n }),
                    None => (pending, WalkAction::MissingSize),
                },
                None => {
                    let WalkEntry { info, dirs } = entry;
                    let mut dirs = dirs;
                    dirs.push(info.name);
                    (pending, WalkAction::List { folder_id: info.folder_id, dirs })
                },
            }
        },
    }
}

/// The walk after a folder was listed: what it holds is visited after the
/// entries still pending, each lying in the folders `dirs`.
pub fn extend_walk(pending: Vec<WalkEntry>, listed: Vec<FileInfo>, dirs: &Vec<String>) -> (r: Vec<WalkEntry>)
    ensures
        r@.len() == pending@.len() + listed@.len(),
        r@.take(pending@.len() as int) == pending@,
        forall|k: int| 0 <= k < listed@.len() ==> (#[trigger] r@[pending@.len() + k]).info == listed@[k]
            && r@[pending@.len() + k].dirs@ == dirs@,
{
    let mut out = pending;
    let ghost start = out@;
    let mut listed = listed;
    let ghost all = listed@;
    let mut rev: Vec<FileInfo> = Vec::new();
    while listed.len() > 0
        invariant
            all == listed@ + rev@.reverse(),
        decreases listed@.len(),
    {
        let ghost l0 = listed@;
        let ghost r0 = rev@;
        match listed.pop() {
            Some(info) => {
                rev.push(info);
                proof {
                    assert(l0 == listed@.push(info));
                    assert(rev@.reverse() =~= seq![info] + r0.reverse());
                    assert(l0 + r0.reverse() =~= listed@ + rev@.reverse());
                }
            },
            None => {},
        }
    }
    proof { assert(all =~= rev@.reverse()); }
    let mut k: usize = 0;
    let n = rev.len();
    while rev.len() > 0
        invariant
            k + rev@.len() == n,
            n == all.len(),
            rev@.reverse() == all.subrange(k as int, n as int),
            out@.len() == start.len() + k,
            out@.take(start.len() as int) == start,
            forall|j: int| 0 <= j < k ==> (#[trigger] out@[start.len() + j]).info == all[j] && out@[start.len() + j].dirs@ == dirs@,
        decreases rev@.len(),
    {
        let ghost r0 = rev@;
        match rev.pop() {
            Some(info) => {
                proof {
                    assert(r0 == rev@.push(info));
                    assert(r0.reverse()[0] == info);
                    assert(all.subrange(k as int, n as int)[0] == all[k as int]);
                    assert(rev@.reverse() =~= r0.reverse().drop_first());
                    assert(all.subrange(k + 1, n as int) =~= all.subrange(k as int, n as int).drop_first());
                }
                let ghost o0 = out@;
                out.push(WalkEntry { info, dirs: clone_strings(dirs) });
                proof {
                    assert(out@.take(start.len() as int) =~= o0.take(start.len() as int));
                    assert forall|j: int| 0 <= j < k + 1 implies (#[trigger] out@[start.len() + j]).info == all[j] && out@[start.len() + j].dirs@ == dirs@ by {
                        if j < k {
                            assert(out@[start.len() + j] == o0[start.len() + j]);
                        }
                    }
                }
                k = k + 1;
            },
            None => {},
        }
    }
    out
}

/// The SHA-1 digest of the bytes, as the `sha1` crate computes it.
pub uninterp spec fn sha1_digest(data: Seq<u8>) -> Seq<u8>;

/// Hashes the bytes with `sha1::Sha1::digest`. Claimed: the digest is
/// `sha1_digest` of the bytes, and it has the 20 bytes of SHA-1's output type.
#[verifier::external_body]
fn sha1_of_bytes(data: &[u8]) -> (d: Vec<u8>)
    ensures
        d@ == sha1_digest(data@),
        d@.len() == 20,
{
    sha1::Sha1::digest(data).to_vec()
}

/// The upper-case hexadecimal digit of a value below 16.
pub open spec fn upper_hex_digit(n: int) -> char {
    if n < 10 {
        ((48 + n) as u8) as char
    } else {
        ((55 + n) as u8) as char
    }
}

/// Bytes written as upper-case hexadecimal, two digits a byte.
pub open spec fn upper_hex(bytes: Seq<u8>) -> Seq<char>
    decreases bytes.len(),
{
    if bytes.len() == 0 {
        Seq::empty()
    } else {
        upper_hex(bytes.drop_last()) + seq![upper_hex_digit((bytes.last() / 16) as int), upper_hex_digit((bytes.last() % 16) as int)]
    }
}

fn hex_digit(d: u8) -> (r: char)
    requires
        d < 16,
    ensures
        r == upper_hex_digit(d as int),
{
    if d < 10 {
        (48u8 + d) as char
    } else {
        (55u8 + d) as char
    }
}

/// The SHA-1 digest of the bytes in upper-case hexadecimal, as a downloaded
/// file's hash is compared with the one the cloud announced.
pub fn sha1_upper_hex(data: &[u8]) -> (r: String)
    ensures
        r@ == upper_hex(sha1_digest(data@)),
{
    let d = sha1_of_bytes(data);
    let mut out: Vec<char> = Vec::new();
    let mut i: usize = 0;
    while i < d.len()
        invariant
            i <= d@.len(),
            out@ == upper_hex(d@.take(i as int)),
        decreases d@.len() - i,
    {
        let b = d[i];
        out.push(hex_digit(b / 16));
        out.push(hex_digit(b % 16));
        proof {
            assert(d@.take(i + 1).drop_last() =~= d@.take(i as int));
            assert(d@.take(i + 1).last() == b);
        }
        i = i + 1;
    }
    proof { assert(d@.take(d@.len() as int) =~= d@); }
    string_of(out.as_slice())
}

/// Whether the login cookies still work, from the answer to a listing of the
/// root folder: an answer means they do, an error of the cloud's interface
/// means they expired, and any other error is handed on.
pub fn login_status_after(listing: Result<(), CloudError>) -> (r: Result<bool, CloudError>)
    ensures
        match listing {
            Ok(()) => r == Ok::<bool, CloudError>(true),
            Err(CloudError::Api(_)) => r == Ok::<bool, CloudError>(false),
            Err(e) => r == Err::<bool, CloudError>(e),
        },
{
    match listing {
        Ok(()) => Ok(true),
        Err(CloudError::Api(_)) => Ok(false),
        Err(e) => Err(e),
    }
}

} // verus!
