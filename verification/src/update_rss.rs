use crate::config_manager::{SubGroup, string_views};
use scraper::Element;
use crate::errors::CatError;
use crate::text::{
    chars_of, clone_strings, concat_all, concat_strs, is_substring, lemma_concat_take_step, lemma_concat_three, lemma_concat_two, slice_chars,
    str_contains, string_of,
};
use crate::time_stamp::TimeStamp;
use vstd::prelude::*;

verus! {

/// An RSS feed of a bangumi.
#[derive(Debug)]
pub struct RSS {
    pub channel: Channel,
}

/// The channel of a feed: its title, its link and its items, latest first.
#[derive(Debug)]
pub struct Channel {
    pub title: String,
    pub link: String,
    pub item: Vec<Item>,
}

/// An episode in a feed.
#[derive(Debug)]
pub struct Item {
    pub title: String,
    pub link: String,
    pub torrent: Torrent,
}

/// The torrent of an episode, with its publication date as the feed writes it.
#[derive(Debug)]
pub struct Torrent {
    pub pub_date: String,
}

/// An episode listed on a bangumi's page: its title and its magnet link.
#[derive(Debug)]
pub struct LItem {
    pub title: String,
    pub link: String,
}

/// An episode that can be chosen by the words of its title.
pub trait Filter {
    spec fn title_spec(&self) -> Seq<char>;

    spec fn link_spec(&self) -> Seq<char>;

    fn title(&self) -> (r: &str)
        ensures
            r@ == self.title_spec(),
    ;

    fn link(&self) -> (r: &str)
        ensures
            r@ == self.link_spec(),
    ;
}

impl Filter for Item {
    open spec fn title_spec(&self) -> Seq<char> {
        self.title@
    }

    open spec fn link_spec(&self) -> Seq<char> {
        self.link@
    }

    fn title(&self) -> (r: &str) {
        self.title.as_str()
    }

    fn link(&self) -> (r: &str) {
        self.link.as_str()
    }
}

impl Filter for LItem {
    open spec fn title_spec(&self) -> Seq<char> {
        self.title@
    }

    open spec fn link_spec(&self) -> Seq<char> {
        self.link@
    }

    fn title(&self) -> (r: &str) {
        self.title.as_str()
    }

    fn link(&self) -> (r: &str) {
        self.link.as_str()
    }
}

/// The titles of the episodes.
pub open spec fn titles_of<T: Filter>(items: Seq<T>) -> Seq<Seq<char>> {
    items.map_values(|it: T| it.title_spec())
}

/// The links of the episodes.
pub open spec fn links_of<T: Filter>(items: Seq<T>) -> Seq<Seq<char>> {
    items.map_values(|it: T| it.link_spec())
}

/// Some title holds `word`.
pub open spec fn in_some_title(word: Seq<char>, titles: Seq<Seq<char>>) -> bool {
    exists|i: int| 0 <= i < titles.len() && is_substring(word, #[trigger] titles[i])
}

/// The first of `words` that some title holds.
pub open spec fn first_word_in(words: Seq<Seq<char>>, titles: Seq<Seq<char>>) -> Option<Seq<char>>
    decreases words.len(),
{
    if words.len() == 0 {
        None
    } else if in_some_title(words[0], titles) {
        Some(words[0])
    } else {
        first_word_in(words.drop_first(), titles)
    }
}

/// The links of the episodes whose title holds `word`, in order.
pub open spec fn links_with(titles: Seq<Seq<char>>, links: Seq<Seq<char>>, word: Seq<char>) -> Seq<Seq<char>>
    decreases titles.len(),
{
    if titles.len() == 0 || links.len() == 0 {
        Seq::empty()
    } else {
        links_with(titles.drop_last(), links.drop_last(), word) + if is_substring(word, titles.last()) {
            seq![links.last()]
        } else {
            Seq::empty()
        }
    }
}

/// The rules stored under the subtitle group `id`: the first entry with it.
pub open spec fn rules_of(filter: Seq<(String, SubGroup)>, id: Seq<char>) -> Option<SubGroup>
    decreases filter.len(),
{
    if filter.len() == 0 {
        None
    } else if filter[0].0@ == id {
        Some(filter[0].1)
    } else {
        rules_of(filter.drop_first(), id)
    }
}

/// The keywords tried for the subtitle group `sub_id`, in order: its own, if
/// it has rules, then the default ones.
pub open spec fn candidate_words(filter: Seq<(String, SubGroup)>, sub_id: Seq<char>) -> Seq<Seq<char>> {
    let own = match rules_of(filter, sub_id) {
        Some(g) => string_views(g.filter_list@),
        None => Seq::empty(),
    };
    own + string_views(rules_of(filter, "default"@).unwrap().filter_list@)
}

/// The links chosen among the episodes: those whose title holds the first
/// candidate keyword that any title holds; all of them when none does.
pub open spec fn chosen_links(titles: Seq<Seq<char>>, links: Seq<Seq<char>>, words: Seq<Seq<char>>) -> Seq<Seq<char>> {
    match first_word_in(words, titles) {
        Some(w) => links_with(titles, links, w),
        None => links,
    }
}

/// Whether some episode's title holds `word`.
fn any_title_contains<T: Filter>(items: &Vec<T>, word: &str) -> (r: bool)
    ensures
        r == in_some_title(word@, titles_of(items@)),
{
    let mut i: usize = 0;
    while i < items.len()
        invariant
            i <= items@.len(),
            forall|j: int| 0 <= j < i ==> !is_substring(word@, #[trigger] titles_of(items@)[j]),
        decreases items@.len() - i,
    {
        if str_contains(items[i].title(), word) {
            assert(is_substring(word@, titles_of(items@)[i as int]));
            return true;
        }
        i = i + 1;
    }
    false
}

/// Position of the first of `words` that some title holds.
fn first_word_index<T: Filter>(words: &Vec<String>, items: &Vec<T>) -> (r: Option<usize>)
    ensures
        match r {
            Some(k) => k < words@.len() && first_word_in(string_views(words@), titles_of(items@)) == Some(words@[k as int]@),
            None => first_word_in(string_views(words@), titles_of(items@)) is None,
        },
{
    let mut k: usize = 0;
    proof { assert(string_views(words@).skip(0) =~= string_views(words@)); }
    while k < words.len()
        invariant
            k <= words@.len(),
            first_word_in(string_views(words@), titles_of(items@)) == first_word_in(string_views(words@).skip(k as int), titles_of(items@)),
        decreases words@.len() - k,
    {
        proof {
            let rest = string_views(words@).skip(k as int);
            assert(rest[0] == words@[k as int]@);
            assert(rest.drop_first() =~= string_views(words@).skip(k + 1));
        }
        if any_title_contains(items, words[k].as_str()) {
            return Some(k);
        }
        k = k + 1;
    }
    proof { assert(string_views(words@).skip(k as int) =~= Seq::<Seq<char>>::empty()); }
    None
}

proof fn lemma_first_word_concat(a: Seq<Seq<char>>, b: Seq<Seq<char>>, titles: Seq<Seq<char>>)
    ensures
        first_word_in(a + b, titles) == match first_word_in(a, titles) {
            Some(w) => Some(w),
            None => first_word_in(b, titles),
        },
    decreases a.len(),
{
    if a.len() == 0 {
        assert(a + b =~= b);
    } else {
        assert((a + b)[0] == a[0]);
        assert((a + b).drop_first() =~= a.drop_first() + b);
        lemma_first_word_concat(a.drop_first(), b, titles);
    }
}

/// Position of the rules stored under `id`.
fn find_rules(filter: &[(String, SubGroup)], id: &str) -> (r: Option<usize>)
    ensures
        match r {
            Some(k) => k < filter@.len() && rules_of(filter@, id@) == Some(filter@[k as int].1),
            None => rules_of(filter@, id@) is None,
        },
{
    let key = id.to_owned();
    let mut k: usize = 0;
    proof { assert(filter@.skip(0) =~= filter@); }
    while k < filter.len()
        invariant
            k <= filter@.len(),
            key@ == id@,
            rules_of(filter@, id@) == rules_of(filter@.skip(k as int), id@),
        decreases filter@.len() - k,
    {
        proof { assert(filter@.skip(k as int).drop_first() =~= filter@.skip(k + 1)); }
        if filter[k].0 == key {
            return Some(k);
        }
        k = k + 1;
    }
    None
}

/// Whether rules are stored under the subtitle group `id`.
pub fn rules_present(filter: &[(String, SubGroup)], id: &str) -> (r: bool)
    ensures
        r == (rules_of(filter@, id@) is Some),
{
    find_rules(filter, id).is_some()
}

/// The magnet links to fetch among `items` for the subtitle group `sub_id`:
/// the candidate keywords are the group's own, then the default ones; the
/// first keyword that some title holds picks the episodes whose title holds
/// it; when none does, every episode is taken.
pub fn filter_episode<'a, T: Filter>(items: &'a Vec<T>, filter: &[(String, SubGroup)], sub_id: &str) -> (r: Vec<&'a str>)
    requires
        rules_of(filter@, "default"@) is Some,
    ensures
        r@.map_values(|s: &str| s@) == chosen_links(titles_of(items@), links_of(items@), candidate_words(filter@, sub_id@)),
{
    let default_index = find_rules(filter, "default");
    let d: usize = match default_index {
        Some(d) => d,
        None => {
            return Vec::new();
        },
    };
    let default_words = &filter[d].1.filter_list;
    let ghost titles = titles_of(items@);
    let ghost own: Seq<Seq<char>> = match rules_of(filter@, sub_id@) {
        Some(g) => string_views(g.filter_list@),
        None => Seq::empty(),
    };
    let mut best: Option<&String> = None;
    match find_rules(filter, sub_id) {
        Some(k) => {
            match first_word_index(&filter[k].1.filter_list, items) {
                Some(w) => {
                    best = Some(&filter[k].1.filter_list[w]);
                },
                None => {},
            }
        },
        None => {
            proof { assert(first_word_in(own, titles) is None); }
        },
    }
    if best.is_none() {
        match first_word_index(default_words, items) {
            Some(w) => {
                best = Some(&default_words[w]);
            },
            None => {},
        }
    }
    proof {
        lemma_first_word_concat(own, string_views(default_words@), titles);
        match best {
            Some(b) => assert(first_word_in(candidate_words(filter@, sub_id@), titles) == Some(b@)),
            None => assert(first_word_in(candidate_words(filter@, sub_id@), titles) is None),
        }
    }
    let mut out: Vec<&'a str> = Vec::new();
    let mut i: usize = 0;
    while i < items.len()
        invariant
            i <= items@.len(),
            titles == titles_of(items@),
            out@.map_values(|s: &str| s@) == match best {
                Some(b) => links_with(titles.take(i as int), links_of(items@).take(i as int), b@),
                None => links_of(items@).take(i as int),
            },
        decreases items@.len() - i,
    {
        let item = &items[i];
        proof {
            assert(titles.take(i + 1).drop_last() =~= titles.take(i as int));
            assert(links_of(items@).take(i + 1).drop_last() =~= links_of(items@).take(i as int));
        }
        match best {
            Some(b) => {
                if str_contains(item.title(), b.as_str()) {
                    out.push(item.link());
                    proof {
                        assert(out@.map_values(|s: &str| s@) =~= links_with(titles.take(i as int), links_of(items@).take(i as int), b@).push(item.link_spec()));
                    }
                } else {
                    proof {
                        assert(links_with(titles.take(i + 1), links_of(items@).take(i + 1), b@) =~= links_with(titles.take(i as int), links_of(items@).take(i as int), b@));
                    }
                }
            },
            None => {
                out.push(item.link());
                proof {
                    assert(out@.map_values(|s: &str| s@) =~= links_of(items@).take(i + 1));
                }
            },
        }
        i = i + 1;
    }
    proof {
        assert(titles.take(items@.len() as int) =~= titles);
        assert(links_of(items@).take(items@.len() as int) =~= links_of(items@));
    }
    out
}

/// The query of a URL as `url::Url::parse` and `query_pairs` give it: the
/// decoded pairs in order, or the text of the parse error.
pub uninterp spec fn url_query(url: Seq<char>) -> Result<Seq<(Seq<char>, Seq<char>)>, Seq<char>>;

/// Key and value of each pair as plain text.
pub open spec fn pair_views(pairs: Seq<(String, String)>) -> Seq<(Seq<char>, Seq<char>)> {
    pairs.map_values(|p: (String, String)| (p.0@, p.1@))
}

/// Parses `url` with `reqwest::Url::parse` and decodes its query with
/// `query_pairs`. Claimed: the pairs, or the error's text, are `url_query`
/// of the text; what that is, is left to the `url` crate.
#[verifier::external_body]
fn query_pairs(url: &str) -> (r: Result<Vec<(String, String)>, String>)
    ensures
        match r {
            Ok(v) => url_query(url@) == Ok::<Seq<(Seq<char>, Seq<char>)>, Seq<char>>(pair_views(v@)),
            Err(e) => url_query(url@) == Err::<Seq<(Seq<char>, Seq<char>)>, Seq<char>>(e@),
        },
{
    match reqwest::Url::parse(url) {
        Ok(parsed) => Ok(parsed.query_pairs().map(|(k, v)| (k.into_owned(), v.into_owned())).collect()),
        Err(e) => Err(e.to_string()),
    }
}

/// The value of the last pair with `key`.
pub open spec fn last_value(pairs: Seq<(Seq<char>, Seq<char>)>, key: Seq<char>) -> Option<Seq<char>>
    decreases pairs.len(),
{
    if pairs.len() == 0 {
        None
    } else if pairs.last().0 == key {
        Some(pairs.last().1)
    } else {
        last_value(pairs.drop_last(), key)
    }
}

/// The bangumi id and the subtitle group id of a query: the last values of
/// `bangumiId` and `subgroupid`, or the message naming the first one missing.
pub open spec fn query_ids(q: Seq<(Seq<char>, Seq<char>)>) -> Result<(Seq<char>, Seq<char>), Seq<char>> {
    match (last_value(q, "bangumiId"@), last_value(q, "subgroupid"@)) {
        (Some(a), Some(b)) => Ok((a, b)),
        (None, _) => Err("missing bangumiId"@),
        (Some(_), None) => Err("missing subgroupid"@),
    }
}

/// The bangumi id and the subtitle group id of a query: the last values of
/// `bangumiId` and `subgroupid`; an error names the first one missing.
pub fn ids_from_query(pairs: Vec<(String, String)>) -> (r: Result<(String, String), CatError>)
    ensures
        match query_ids(pair_views(pairs@)) {
            Ok((a, b)) => r matches Ok((x, y)) && x@ == a && y@ == b,
            Err(msg) => r matches Err(CatError::Parse(m)) && m@ == msg,
        },
{
    let bangumi_key = "bangumiId".to_owned();
    let subgroup_key = "subgroupid".to_owned();
    let mut ani_id: Option<String> = None;
    let mut sub_id: Option<String> = None;
    let mut i: usize = 0;
    while i < pairs.len()
        invariant
            i <= pairs@.len(),
            bangumi_key@ == "bangumiId"@,
            subgroup_key@ == "subgroupid"@,
            match ani_id {
                Some(a) => last_value(pair_views(pairs@.take(i as int)), "bangumiId"@) == Some(a@),
                None => last_value(pair_views(pairs@.take(i as int)), "bangumiId"@) is None,
            },
            match sub_id {
                Some(b) => last_value(pair_views(pairs@.take(i as int)), "subgroupid"@) == Some(b@),
                None => last_value(pair_views(pairs@.take(i as int)), "subgroupid"@) is None,
            },
        decreases pairs@.len() - i,
    {
        proof {
            assert(pair_views(pairs@.take(i + 1)).drop_last() =~= pair_views(pairs@.take(i as int)));
            assert(pair_views(pairs@.take(i + 1)).last() == (pairs@[i as int].0@, pairs@[i as int].1@));
            reveal_strlit("bangumiId");
            reveal_strlit("subgroupid");
            assert("bangumiId"@[0] != "subgroupid"@[0]);
            assert("bangumiId"@ != "subgroupid"@);
        }
        let (key, value) = &pairs[i];
        if *key == bangumi_key {
            ani_id = Some(value.clone());
        } else if *key == subgroup_key {
            sub_id = Some(value.clone());
        }
        i = i + 1;
    }
    proof { assert(pairs@.take(pairs@.len() as int) =~= pairs@); }
    match ani_id {
        None => Err(CatError::Parse("missing bangumiId".to_owned())),
        Some(a) => match sub_id {
            None => Err(CatError::Parse("missing subgroupid".to_owned())),
            Some(b) => Ok((a, b)),
        },
    }
}

/// The bangumi id and the subtitle group id in the query of an RSS link.
pub fn parse_url(url: &str) -> (r: Result<(String, String), CatError>)
    ensures
        match url_query(url@) {
            Err(e) => r matches Err(CatError::RssLinkParse(m)) && m@ == e,
            Ok(q) => match query_ids(q) {
                Ok((a, b)) => r matches Ok((x, y)) && x@ == a && y@ == b,
                Err(msg) => r matches Err(CatError::Parse(m)) && m@ == msg,
            },
        },
{
    match query_pairs(url) {
        Ok(pairs) => ids_from_query(pairs),
        Err(e) => Err(CatError::RssLinkParse(e)),
    }
}

/// The key a bangumi is stored under: its id, `&`, its subtitle group id.
pub fn bangumi_key(ani_id: &str, sub_id: &str) -> (r: String)
    ensures
        r@ == ani_id@ + "&"@ + sub_id@,
{
    let r = concat_strs(&[ani_id, "&", sub_id]);
    proof {
        let parts = seq![ani_id, "&", sub_id];
        let v = seq![ani_id@, "&"@, sub_id@];
        assert(parts.map_values(|p: &str| p@) =~= v);
        lemma_concat_three(ani_id@, "&"@, sub_id@);
    }
    r
}

/// Whether a link is a magnet link: it starts with `magnet:`.
pub open spec fn is_magnet_link(link: Seq<char>) -> bool {
    link.len() >= 7 && link.take(7) == "magnet:"@
}

/// The first magnet link among the links of an episode's page.
pub fn first_magnet_link(links: &[String]) -> (r: Option<String>)
    ensures
        match r {
            Some(l) => exists|k: int| 0 <= k < links@.len() && links@[k]@ == l@ && is_magnet_link(l@)
                && forall|j: int| 0 <= j < k ==> !is_magnet_link(#[trigger] links@[j]@),
            None => forall|j: int| 0 <= j < links@.len() ==> !is_magnet_link(#[trigger] links@[j]@),
        },
{
    let mut i: usize = 0;
    while i < links.len()
        invariant
            i <= links@.len(),
            forall|j: int| 0 <= j < i ==> !is_magnet_link(#[trigger] links@[j]@),
        decreases links@.len() - i,
    {
        let cs = chars_of(links[i].as_str());
        proof {
            reveal_strlit("magnet:");
            assert("magnet:"@ =~= seq!['m', 'a', 'g', 'n', 'e', 't', ':']);
        }
        let found = cs.len() >= 7 && cs[0] == 'm' && cs[1] == 'a' && cs[2] == 'g' && cs[3] == 'n' && cs[4] == 'e'
            && cs[5] == 't' && cs[6] == ':';
        if found {
            proof { assert(links@[i as int]@.take(7) =~= "magnet:"@); }
            return Some(links[i].clone());
        }
        proof {
            if is_magnet_link(links@[i as int]@) {
                assert(links@[i as int]@.take(7)[0] == cs@[0]);
                assert(links@[i as int]@.take(7)[1] == cs@[1]);
                assert(links@[i as int]@.take(7)[2] == cs@[2]);
                assert(links@[i as int]@.take(7)[3] == cs@[3]);
                assert(links@[i as int]@.take(7)[4] == cs@[4]);
                assert(links@[i as int]@.take(7)[5] == cs@[5]);
                assert(links@[i as int]@.take(7)[6] == cs@[6]);
            }
        }
        i = i + 1;
    }
    None
}

/// The episode rows of a bangumi's episode table, as `scraper` reads the
/// page: for each `a.magnet-link-wrap` element in document order, its text
/// and the `data-clipboard-text` attribute of its next sibling element, if
/// there is one.
pub uninterp spec fn episode_rows(html: Seq<char>) -> Seq<(Seq<char>, Option<Seq<char>>)>;

/// The rows as plain text.
pub open spec fn row_views(rows: Seq<(String, Option<String>)>) -> Seq<(Seq<char>, Option<Seq<char>>)> {
    rows.map_values(|r: (String, Option<String>)| (r.0@, match r.1 { Some(l) => Some(l@), None => None }))
}

/// Parses `html` with `scraper::Html::parse_document`, selects
/// `a.magnet-link-wrap` and reads, for each element, its text and the
/// `data-clipboard-text` of its next sibling element. Claimed: the rows are
/// `episode_rows` of the page.
#[verifier::external_body]
fn scrape_episode_rows(html: &str) -> (r: Vec<(String, Option<String>)>)
    ensures
        row_views(r@) == episode_rows(html@),
{
    let soup = scraper::Html::parse_document(html);
    let selector = scraper::Selector::parse("a.magnet-link-wrap").expect("html element selector must be valid!");
    soup.select(&selector)
        .map(|e| (e.text().collect::<String>(), e.next_sibling_element().and_then(|n| n.value().attr("data-clipboard-text")).map(String::from)))
        .collect()
}

/// Every row has a link.
pub open spec fn rows_linked(rows: Seq<(Seq<char>, Option<Seq<char>>)>) -> bool {
    forall|i: int| 0 <= i < rows.len() ==> (#[trigger] rows[i]).1 is Some
}

/// The titles of the rows.
pub open spec fn row_titles(rows: Seq<(Seq<char>, Option<Seq<char>>)>) -> Seq<Seq<char>> {
    rows.map_values(|r: (Seq<char>, Option<Seq<char>>)| r.0)
}

/// The links of the rows, where every row has one.
pub open spec fn row_links(rows: Seq<(Seq<char>, Option<Seq<char>>)>) -> Seq<Seq<char>> {
    rows.map_values(|r: (Seq<char>, Option<Seq<char>>)| r.1->0)
}

/// The magnet links of a subtitle group's episodes on its episode table page,
/// chosen by the filter rules as `filter_episode` chooses them; an error when
/// some row has no link.
pub fn episode_magnet_links(html: &str, rules: &[(String, SubGroup)], sub_id: &str) -> (r: Result<Vec<String>, CatError>)
    requires
        rules_of(rules@, "default"@) is Some,
    ensures
        rows_linked(episode_rows(html@)) ==> (r matches Ok(v) && v@.map_values(|s: String| s@) == chosen_links(
            row_titles(episode_rows(html@)),
            row_links(episode_rows(html@)),
            candidate_words(rules@, sub_id@),
        )),
        !rows_linked(episode_rows(html@)) ==> (r matches Err(CatError::Parse(m)) && m@ == "parse all episode magnet links error"@),
{
    let rows = scrape_episode_rows(html);
    let ghost rv = episode_rows(html@);
    let mut items: Vec<LItem> = Vec::new();
    let mut i: usize = 0;
    while i < rows.len()
        invariant
            i <= rows@.len(),
            row_views(rows@) == rv,
            rv == episode_rows(html@),
            items@.len() == i,
            forall|k: int| 0 <= k < i ==> (#[trigger] rv[k]).1 is Some,
            forall|k: int| 0 <= k < i ==> (#[trigger] items@[k]).title@ == rv[k].0 && Some(items@[k].link@) == rv[k].1,
        decreases rows@.len() - i,
    {
        proof { assert(rv[i as int] == row_views(rows@)[i as int]); }
        match &rows[i].1 {
            Some(link) => {
                items.push(LItem { title: rows[i].0.clone(), link: link.clone() });
            },
            None => {
                proof {
                    assert(row_views(rows@)[i as int].1 is None);
                    assert(!rows_linked(rv));
                }
                return Err(CatError::Parse("parse all episode magnet links error".to_owned()));
            },
        }
        i = i + 1;
    }
    proof {
        assert(titles_of(items@) =~= row_titles(rv));
        assert(links_of(items@) =~= row_links(rv));
    }
    let chosen = filter_episode(&items, rules, sub_id);
    let mut out: Vec<String> = Vec::new();
    let mut j: usize = 0;
    while j < chosen.len()
        invariant
            j <= chosen@.len(),
            out@.map_values(|s: String| s@) == chosen@.map_values(|s: &str| s@).take(j as int),
        decreases chosen@.len() - j,
    {
        let piece: &str = chosen[j];
        let owned: String = piece.to_owned();
        proof { assert(owned@ == chosen@[j as int]@); }
        let ghost before = out@;
        out.push(owned);
        proof {
            assert(out@ == before.push(owned));
            assert(out@.map_values(|s: String| s@) =~= before.map_values(|s: String| s@).push(owned@));
            assert(chosen@.map_values(|s: &str| s@).take(j + 1) =~= chosen@.map_values(|s: &str| s@).take(j as int).push(chosen@[j as int]@));
        }
        j = j + 1;
    }
    proof { assert(chosen@.map_values(|s: &str| s@).take(chosen@.len() as int) =~= chosen@.map_values(|s: &str| s@)); }
    Ok(out)
}

/// The targets of the `a[href]` elements of a page, in document order, as
/// `scraper` reads them.
pub uninterp spec fn page_hrefs(html: Seq<char>) -> Seq<Seq<char>>;

/// Parses `html` with `scraper::Html::parse_document` and reads the `href` of
/// every `a[href]` element. Claimed: they are `page_hrefs` of the page.
#[verifier::external_body]
fn hrefs_of(html: &str) -> (r: Vec<String>)
    ensures
        string_views(r@) == page_hrefs(html@),
{
    let page = scraper::Html::parse_document(html);
    let selector = scraper::Selector::parse("a[href]").expect("html element selector must be valid!");
    page.select(&selector).filter_map(|e| e.value().attr("href")).map(String::from).collect()
}

/// The first magnet link of an episode's page, or the error that it has none.
pub fn magnet_link_of_page(html: &str) -> (r: Result<String, CatError>)
    ensures
        match r {
            Ok(l) => exists|k: int| 0 <= k < page_hrefs(html@).len() && page_hrefs(html@)[k] == l@ && is_magnet_link(l@)
                && forall|j: int| 0 <= j < k ==> !is_magnet_link(#[trigger] page_hrefs(html@)[j]),
            Err(e) => e matches CatError::Parse(m) && m@ == "can not get a magnet link"@
                && forall|j: int| 0 <= j < page_hrefs(html@).len() ==> !is_magnet_link(#[trigger] page_hrefs(html@)[j]),
        },
{
    let links = hrefs_of(html);
    let ghost hs = page_hrefs(html@);
    proof {
        assert forall|j: int| 0 <= j < links@.len() implies links@[j]@ == #[trigger] hs[j] by {
            assert(string_views(links@)[j] == links@[j]@);
        }
    }
    proof { assert(hs.len() == links@.len()); }
    match first_magnet_link(&links) {
        Some(l) => {
            proof {
                let k = choose|k: int| 0 <= k < links@.len() && links@[k]@ == l@ && is_magnet_link(l@)
                    && forall|j: int| 0 <= j < k ==> !is_magnet_link(#[trigger] links@[j]@);
                assert(hs[k] == l@);
                assert forall|j: int| 0 <= j < k implies !is_magnet_link(#[trigger] hs[j]) by {
                    assert(hs[j] == links@[j]@);
                }
            }
            Ok(l)
        },
        None => {
            proof {
                assert forall|j: int| 0 <= j < hs.len() implies !is_magnet_link(#[trigger] hs[j]) by {
                    assert(hs[j] == links@[j]@);
                }
            }
            Err(CatError::Parse("can not get a magnet link".to_owned()))
        },
    }
}

/// The text of the first `a.magnet-link-wrap` element of a page, as `scraper`
/// reads it: the first piece of text inside the element.
pub uninterp spec fn first_wrap_text(html: Seq<char>) -> Option<Seq<char>>;

/// Parses `html` with `scraper::Html::parse_document` and reads the first text
/// node of the first `a.magnet-link-wrap` element. Claimed: it is
/// `first_wrap_text` of the page.
#[verifier::external_body]
fn scrape_first_wrap_text(html: &str) -> (r: Option<String>)
    ensures
        match r {
            Some(t) => first_wrap_text(html@) == Some(t@),
            None => first_wrap_text(html@) is None,
        },
{
    let page = scraper::Html::parse_document(html);
    let selector = scraper::Selector::parse("a.magnet-link-wrap").expect("html element selector must be valid!");
    page.select(&selector).next().and_then(|e| e.text().next()).map(String::from)
}

/// The name of the subtitle group an episode's page shows: the first text of
/// its first `a.magnet-link-wrap` element.
pub fn subgroup_name_of_page(html: &str) -> (r: Option<String>)
    ensures
        match r {
            Some(t) => first_wrap_text(html@) == Some(t@),
            None => first_wrap_text(html@) is None,
        },
{
    scrape_first_wrap_text(html)
}

/// Where the end of a feed's update stands: nothing done yet, links being
/// added to the cloud for a bangumi's title, finished, or failed.
#[derive(Debug)]
pub enum RssRound {
    Start,
    Adding { title: String, links: Vec<String> },
    Finished,
    Failed,
}

/// What happens during the end of a feed's update: the magnet links found for
/// a title, with those still pending for it; the cloud added the links and
/// gave their hashes; the cloud refused them.
#[derive(Debug)]
pub enum RssEvent {
    Found { title: String, found: Vec<String>, pending: Option<Vec<String>> },
    Added(Vec<String>),
    AddFailed,
}

/// What the update does next: add links to the cloud; forget the title's
/// pending links, remember each hash under the title and then publish the
/// bangumi's record; keep the links pending under the title, and fail
/// without publishing; publish the bangumi's record; or nothing.
#[derive(Debug)]
pub enum RssAction {
    AddToCloud(Vec<String>),
    RecordAndPublish { title: String, hashes: Vec<String> },
    KeepPending { title: String, links: Vec<String> },
    Publish,
    Nothing,
}

/// The links an update sends for a title: those found, then those pending.
pub open spec fn round_links(found: Seq<String>, pending: Option<Vec<String>>) -> Seq<String> {
    found + match pending {
        Some(p) => p@,
        None => Seq::<String>::empty(),
    }
}

/// One step of the end of a feed's update. The bangumi's record is published
/// only as the last step: once the cloud took the links, or when there were
/// none; when the cloud refuses them, the links stay pending and the update
/// fails.
pub fn rss_round_step(round: RssRound, event: RssEvent) -> (r: (RssRound, RssAction))
    ensures
        match (round, event) {
            (RssRound::Start, RssEvent::Found { title, found, pending }) => {
                let links = round_links(found@, pending);
                if links.len() == 0 {
                    r.0 is Finished && r.1 is Publish
                } else {
                    &&& r.0 matches RssRound::Adding { title: t, links: l } && t == title && l@ == links
                    &&& r.1 matches RssAction::AddToCloud(a) && a@ == links
                }
            },
            (RssRound::Adding { title, links }, RssEvent::Added(hashes)) => {
                &&& r.0 is Finished
                &&& r.1 matches RssAction::RecordAndPublish { title: t, hashes: h } && t == title && h@ == hashes@
            },
            (RssRound::Adding { title, links }, RssEvent::AddFailed) => {
                &&& r.0 is Failed
                &&& r.1 matches RssAction::KeepPending { title: t, links: l } && t == title && l@ == links@
            },
            (round, _) => r.0 == round && r.1 is Nothing,
        },
{
    match round {
        RssRound::Start => match event {
            RssEvent::Found { title, found, pending } => {
                let mut links = found;
                match pending {
                    Some(p) => {
                        let mut p = p;
                        links.append(&mut p);
                    },
                    None => {
                        proof { assert(links@ + Seq::<String>::empty() =~= links@); }
                    },
                }
                if links.len() == 0 {
                    (RssRound::Finished, RssAction::Publish)
                } else {
                    let sent = clone_strings(&links);
                    (RssRound::Adding { title, links }, RssAction::AddToCloud(sent))
                }
            },
            other => {
                proof { assert(!(other is Found)); }
                (RssRound::Start, RssAction::Nothing)
            },
        },
        RssRound::Adding { title, links } => match event {
            RssEvent::Added(hashes) => (RssRound::Finished, RssAction::RecordAndPublish { title, hashes }),
            RssEvent::AddFailed => (RssRound::Failed, RssAction::KeepPending { title, links }),
            RssEvent::Found { .. } => (RssRound::Adding { title, links }, RssAction::Nothing),
        },
        RssRound::Finished => (RssRound::Finished, RssAction::Nothing),
        RssRound::Failed => (RssRound::Failed, RssAction::Nothing),
    }
}

/// Whether " - " starts at position `i` of `t`.
pub open spec fn dash_at(t: Seq<char>, i: int) -> bool {
    0 <= i && i + 3 <= t.len() && t.subrange(i, i + 3) == " - "@
}

/// The first position from `from` on where " - " starts, if any.
pub open spec fn next_dash(t: Seq<char>, from: int) -> Option<int>
    decreases t.len() - from,
{
    if from < 0 || from + 3 > t.len() {
        None
    } else if dash_at(t, from) {
        Some(from)
    } else {
        next_dash(t, from + 1)
    }
}

/// The name of a bangumi in its feed's title, which reads `group - name -
/// ...`: the piece after the first " - ", up to the next one; the whole
/// title when there is no " - ".
pub open spec fn bangumi_name_spec(t: Seq<char>) -> Seq<char> {
    match next_dash(t, 0) {
        None => t,
        Some(a) => match next_dash(t, a + 3) {
            None => t.subrange(a + 3, t.len() as int),
            Some(b) => t.subrange(a + 3, b),
        },
    }
}

/// The title a followed bangumi is shown and stored under: its subtitle
/// group in brackets, then its name.
pub open spec fn rss_title_spec(sub_name: Seq<char>, channel_title: Seq<char>) -> Seq<char> {
    "["@ + sub_name + "] "@ + bangumi_name_spec(channel_title)
}

/// The first position from `from` on where " - " starts in `t`.
fn find_dash(t: &[char], from: usize) -> (r: Option<usize>)
    ensures
        match r {
            Some(k) => next_dash(t@, from as int) == Some(k as int),
            None => next_dash(t@, from as int) is None,
        },
{
    let mut i = from;
    while i < t.len() && t.len() - i >= 3
        invariant
            from <= i,
            next_dash(t@, from as int) == next_dash(t@, i as int),
        decreases t@.len() - i,
    {
        proof {
            reveal_strlit(" - ");
            assert(" - "@ =~= seq![' ', '-', ' ']);
        }
        if t[i] == ' ' && t[i + 1] == '-' && t[i + 2] == ' ' {
            proof { assert(t@.subrange(i as int, i + 3) =~= " - "@); }
            return Some(i);
        }
        proof {
            assert(!dash_at(t@, i as int)) by {
                if t@.subrange(i as int, i + 3) == " - "@ {
                    assert(t@.subrange(i as int, i + 3)[0] == t@[i as int]);
                    assert(t@.subrange(i as int, i + 3)[1] == t@[i + 1]);
                    assert(t@.subrange(i as int, i + 3)[2] == t@[i + 2]);
                }
            }
        }
        i = i + 1;
    }
    None
}

/// The title a bangumi is stored under, from its subtitle group's name and
/// its feed's title: `[group] name`.
pub fn rss_title(sub_name: &str, channel_title: &str) -> (r: String)
    ensures
        r@ == rss_title_spec(sub_name@, channel_title@),
{
    let t = chars_of(channel_title);
    let name: Vec<char> = match find_dash(t.as_slice(), 0) {
        None => t.clone(),
        Some(a) => {
            proof { assert(a + 3 <= t.len()) by { lemma_next_dash_fits(t@, 0); } }
            match find_dash(t.as_slice(), a + 3) {
                None => slice_chars(t.as_slice(), a + 3, t.len()),
                Some(b) => {
                    proof { lemma_next_dash_fits(t@, a + 3); }
                    slice_chars(t.as_slice(), a + 3, b)
                },
            }
        },
    };
    let name_str = string_of(name.as_slice());
    let parts = ["[", sub_name, "] ", name_str.as_str()];
    let r = concat_strs(&parts);
    proof {
        let v = parts@.map_values(|p: &str| p@);
        assert(v =~= seq!["["@, sub_name@, "] "@, name_str@]);
        assert(concat_all(v.take(0)) =~= Seq::<char>::empty());
        lemma_concat_take_step(v, 0);
        lemma_concat_take_step(v, 1);
        lemma_concat_take_step(v, 2);
        lemma_concat_take_step(v, 3);
        assert(v.take(4) =~= v);
        assert(Seq::<char>::empty() + v[0] =~= v[0]);
        assert(name_str@ == bangumi_name_spec(channel_title@));
    }
    r
}

/// Where " - " is found from `from` on, it starts there or later and fits.
proof fn lemma_next_dash_fits(t: Seq<char>, from: int)
    ensures
        next_dash(t, from) matches Some(i) ==> from <= i && i + 3 <= t.len(),
    decreases t.len() - from,
{
    if !(from < 0 || from + 3 > t.len()) && !dash_at(t, from) {
        lemma_next_dash_fits(t, from + 1);
    }
}

/// Whether a link has the form of a bangumi's RSS link on mikanime.tv, as
/// `regex` matches it against
/// `^https?://mikanime\.tv/RSS/Bangumi\?(bangumiId=\d+&subgroupid=\d+|subgroupid=\d+&bangumiId=\d+)$`.
pub uninterp spec fn rss_link_form(url: Seq<char>) -> bool;

/// Matches `url` against the form of an RSS link with `regex::Regex::captures`.
/// Claimed: the answer is `rss_link_form` of the text.
#[verifier::external_body]
fn matches_rss_link_form(url: &str) -> (r: bool)
    ensures
        r == rss_link_form(url@),
{
    let pattern = regex::Regex::new(
        r"^https?://mikanime\.tv/RSS/Bangumi\?(bangumiId=\d+&subgroupid=\d+|subgroupid=\d+&bangumiId=\d+)$",
    ).expect("regex should be valid!");
    pattern.captures(url).is_some()
}

/// Why an RSS link is refused before it is fetched.
#[derive(Debug)]
pub enum RssLinkError {
    /// The link does not have the form of an RSS link.
    Invalid,
    /// The ids cannot be read from the link.
    Parse(CatError),
    /// The bangumi is already followed.
    Exists,
}

/// Whether some id among `ids` is `key`.
pub open spec fn holds_id(ids: Seq<String>, key: Seq<char>) -> bool {
    exists|i: int| 0 <= i < ids.len() && #[trigger] ids[i]@ == key
}

/// The key of the bangumi an RSS link names, or why the link is refused,
/// given whether the link has the form of an RSS link and the keys of the
/// bangumi already followed.
pub fn rss_link_verdict(url: &str, form_ok: bool, known_ids: &[String]) -> (r: Result<String, RssLinkError>)
    ensures
        !form_ok ==> r matches Err(RssLinkError::Invalid),
        form_ok ==> match url_query(url@) {
            Err(e) => r matches Err(RssLinkError::Parse(CatError::RssLinkParse(m))) && m@ == e,
            Ok(q) => match query_ids(q) {
                Err(msg) => r matches Err(RssLinkError::Parse(CatError::Parse(m))) && m@ == msg,
                Ok((a, b)) => if holds_id(known_ids@, a + "&"@ + b) {
                    r matches Err(RssLinkError::Exists)
                } else {
                    r matches Ok(k) && k@ == a + "&"@ + b
                },
            },
        },
{
    if !form_ok {
        return Err(RssLinkError::Invalid);
    }
    let (ani_id, sub_id) = match parse_url(url) {
        Ok(ids) => ids,
        Err(e) => {
            return Err(RssLinkError::Parse(e));
        },
    };
    let key = bangumi_key(ani_id.as_str(), sub_id.as_str());
    if find_id(known_ids, &key) {
        Err(RssLinkError::Exists)
    } else {
        Ok(key)
    }
}

/// Whether `key` is among `ids`.
fn find_id(ids: &[String], key: &String) -> (r: bool)
    ensures
        r == holds_id(ids@, key@),
{
    let mut i: usize = 0;
    while i < ids.len()
        invariant
            i <= ids@.len(),
            forall|j: int| 0 <= j < i ==> ids@[j]@ != key@,
        decreases ids@.len() - i,
    {
        if ids[i] == *key {
            assert(ids@[i as int]@ == key@);
            return true;
        }
        i = i + 1;
    }
    false
}

/// The checks an RSS link passes before it is fetched: its form, its ids,
/// and that its bangumi is not followed yet. Gives the bangumi's key.
pub fn check_rss_link_id(url: &str, known_ids: &[String]) -> (r: Result<String, RssLinkError>)
    ensures
        !rss_link_form(url@) ==> r matches Err(RssLinkError::Invalid),
        rss_link_form(url@) ==> match url_query(url@) {
            Err(e) => r matches Err(RssLinkError::Parse(CatError::RssLinkParse(m))) && m@ == e,
            Ok(q) => match query_ids(q) {
                Err(msg) => r matches Err(RssLinkError::Parse(CatError::Parse(m))) && m@ == msg,
                Ok((a, b)) => if holds_id(known_ids@, a + "&"@ + b) {
                    r matches Err(RssLinkError::Exists)
                } else {
                    r matches Ok(k) && k@ == a + "&"@ + b
                },
            },
        },
{
    let form_ok = matches_rss_link_form(url);
    rss_link_verdict(url, form_ok, known_ids)
}

/// The instant a date and time in RFC 3339 form stands for, as
/// `chrono::DateTime::<FixedOffset>::from_str` reads it: seconds since the
/// epoch, nanoseconds and offset in seconds, or the text of the parse error.
pub uninterp spec fn rfc3339_time(text: Seq<char>) -> Result<(i64, u32, i32), Seq<char>>;

/// Parses `text` with `chrono::DateTime::<FixedOffset>::from_str`. Claimed:
/// the instant, or the error's text, is `rfc3339_time` of the text.
#[verifier::external_body]
fn parse_rfc3339(text: &str) -> (r: Result<TimeStamp, String>)
    ensures
        match r {
            Ok(t) => rfc3339_time(text@) == Ok::<(i64, u32, i32), Seq<char>>((t.secs, t.nanos, t.offset_secs)),
            Err(e) => rfc3339_time(text@) == Err::<(i64, u32, i32), Seq<char>>(e@),
        },
{
    match <chrono::DateTime<chrono::FixedOffset> as std::str::FromStr>::from_str(text) {
        Ok(d) => Ok(TimeStamp { secs: d.timestamp(), nanos: d.timestamp_subsec_nanos(), offset_secs: d.offset().local_minus_utc() }),
        Err(e) => Err(e.to_string()),
    }
}

/// The time a feed's publication date stands for: the feed writes the time
/// in UTC+8 without its offset.
pub open spec fn publish_time_spec(pub_date: Seq<char>) -> Result<(i64, u32, i32), Seq<char>> {
    rfc3339_time(pub_date + "+08:00"@)
}

/// Reads a feed's publication date, which is in UTC+8.
pub fn publish_time(pub_date: &str) -> (r: Result<TimeStamp, CatError>)
    ensures
        match publish_time_spec(pub_date@) {
            Ok((secs, nanos, offset)) => r matches Ok(t) && t.secs == secs && t.nanos == nanos && t.offset_secs == offset,
            Err(e) => r matches Err(CatError::Parse(m)) && m@ == e,
        },
{
    let text = concat_strs(&[pub_date, "+08:00"]);
    proof {
        let v = seq![pub_date@, "+08:00"@];
        assert(seq![pub_date, "+08:00"].map_values(|p: &str| p@) =~= v);
        lemma_concat_two(pub_date@, "+08:00"@);
    }
    match parse_rfc3339(text.as_str()) {
        Ok(t) => Ok(t),
        Err(e) => Err(CatError::Parse(e)),
    }
}

/// What a feed tells about a bangumi: new to the configuration, without a
/// newer episode, or with newer episodes.
#[derive(Debug, Clone, Copy, PartialEq, Eq, Structural)]
pub enum UpdateKind {
    New,
    Unchanged,
    Newer,
}

/// How a feed whose latest episode came out at `latest` relates to the
/// bangumi as known, `known` being the time of the last episode seen.
pub fn update_kind(known: Option<TimeStamp>, latest: TimeStamp) -> (r: UpdateKind)
    ensures
        known is None ==> r == UpdateKind::New,
        known matches Some(t) ==> r == if crate::time_stamp::not_after(latest, t) { UpdateKind::Unchanged } else { UpdateKind::Newer },
{
    match known {
        None => UpdateKind::New,
        Some(t) => if latest.not_after(&t) {
            UpdateKind::Unchanged
        } else {
            UpdateKind::Newer
        },
    }
}

/// Where the walk through the feed's items, latest first, stops: at the first
/// item not later than `last`, else at the last item; or the first date that
/// cannot be read. The walk starts at `i` with `cut` as the stop so far.
pub open spec fn cut_from(dates: Seq<Seq<char>>, last: TimeStamp, i: int, cut: int) -> Result<int, Seq<char>>
    decreases dates.len() - i,
{
    if i < 0 || i >= dates.len() {
        Ok(cut)
    } else {
        match publish_time_spec(dates[i]) {
            Err(e) => Err(e),
            Ok((secs, nanos, offset)) => if crate::time_stamp::not_after(TimeStamp { secs, nanos, offset_secs: offset }, last) {
                Ok(i)
            } else {
                cut_from(dates, last, i + 1, i)
            },
        }
    }
}

/// The publication dates of the items, as the feed writes them.
pub open spec fn pub_dates(items: Seq<Item>) -> Seq<Seq<char>> {
    items.map_values(|it: Item| it.torrent.pub_date@)
}

/// The number of items of a feed, latest first, that the update keeps: the
/// position of the first item published not later than `last`, or of the
/// last item when all are later.
pub fn new_episode_index(items: &[Item], last: TimeStamp) -> (r: Result<usize, CatError>)
    ensures
        match cut_from(pub_dates(items@), last, 0, 0) {
            Ok(c) => r matches Ok(k) && k == c,
            Err(e) => r matches Err(CatError::Parse(m)) && m@ == e,
        },
{
    let mut index: usize = 0;
    let mut i: usize = 0;
    while i < items.len()
        invariant
            i <= items@.len(),
            index <= i,
            cut_from(pub_dates(items@), last, 0, 0) == cut_from(pub_dates(items@), last, i as int, index as int),
        decreases items@.len() - i,
    {
        let date = publish_time(items[i].torrent.pub_date.as_str());
        proof { assert(pub_dates(items@)[i as int] == items@[i as int].torrent.pub_date@); }
        match date {
            Err(e) => {
                return Err(e);
            },
            Ok(t) => {
                index = i;
                if t.not_after(&last) {
                    return Ok(index);
                }
            },
        }
        i = i + 1;
    }
    Ok(index)
}

/// The items an update fetches: the first `index`, oldest first.
pub fn episodes_to_fetch<T>(items: Vec<T>, index: usize) -> (r: Vec<T>)
    ensures
        index <= items@.len() ==> r@ == items@.take(index as int).reverse(),
        index > items@.len() ==> r@ == items@.reverse(),
{
    let mut items = items;
    let ghost all = items@;
    let mut out: Vec<T> = Vec::new();
    let keep: usize = if index < items.len() { index } else { items.len() };
    while items.len() > keep
        invariant
            keep <= items@.len() <= all.len(),
            items@ == all.take(items@.len() as int),
            out@.len() == 0,
        decreases items@.len(),
    {
        items.pop();
    }
    while items.len() > 0
        invariant
            items@.len() <= keep <= all.len(),
            items@ == all.take(items@.len() as int),
            out@ == all.take(keep as int).skip(items@.len() as int).reverse(),
        decreases items@.len(),
    {
        let ghost before = out@;
        let n = items.len();
        match items.pop() {
            Some(x) => {
                out.push(x);
                proof {
                    assert(x == all[n - 1]);
                    assert(all.take(keep as int).skip(n - 1) =~= seq![all[n - 1]] + all.take(keep as int).skip(n as int));
                    assert(out@ =~= all.take(keep as int).skip(n - 1).reverse());
                }
            },
            None => {},
        }
    }
    proof { assert(all.take(keep as int).skip(0) =~= all.take(keep as int)); }
    out
}

} // verus!
