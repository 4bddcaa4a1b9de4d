use crate::time_stamp::TimeStamp;
use vstd::std_specs::cmp::PartialEqSpec;
use vstd::prelude::*;

verus! {

/// The filter rules of a subtitle group: its name and the keywords an episode
/// title is searched for, in order of preference.
#[derive(Debug, Clone, Default)]
pub struct SubGroup {
    pub name: String,
    pub filter_list: Vec<String>,
}

pub open spec fn string_views(v: Seq<String>) -> Seq<Seq<char>> {
    v.map_values(|s: String| s@)
}

pub open spec fn str_views(v: Seq<&str>) -> Seq<Seq<char>> {
    v.map_values(|s: &str| s@)
}

impl SubGroup {
    pub fn new_const(filter_list: &[&str]) -> (r: Self)
        ensures
            r.name@ == Seq::<char>::empty(),
            string_views(r.filter_list@) == str_views(filter_list@),
    {
        let mut list: Vec<String> = Vec::new();
        let mut i: usize = 0;
        while i < filter_list.len()
            invariant
                i <= filter_list@.len(),
                list@.len() == i,
                string_views(list@) == str_views(filter_list@.take(i as int)),
            decreases filter_list@.len() - i,
        {
            let s: String = filter_list[i].to_owned();
            let ghost before = list@;
            list.push(s);
            proof {
                assert(list@ == before.push(s));
                assert forall|k: int| 0 <= k < list@.len() implies #[trigger] string_views(list@)[k] == str_views(filter_list@.take(i + 1))[k] by {
                    if k < i {
                        assert(string_views(before)[k] == str_views(filter_list@.take(i as int))[k]);
                    } else {
                        assert(filter_list@.take(i + 1)[k] == filter_list@[i as int]);
                    }
                }
                assert(string_views(list@) =~= str_views(filter_list@.take(i + 1)));
            }
            i = i + 1;
        }
        proof { assert(filter_list@.take(filter_list@.len() as int) =~= filter_list@); }
        Self { name: String::new(), filter_list: list }
    }

    pub fn new(filter_list: Vec<String>) -> (r: Self)
        ensures
            r.name@ == Seq::<char>::empty(),
            r.filter_list == filter_list,
    {
        Self { name: String::new(), filter_list }
    }

    pub fn with_name(self, name: String) -> (r: Self)
        ensures
            r.name == name,
            r.filter_list == self.filter_list,
    {
        let mut s = self;
        s.name = name;
        s
    }
}

/// The last episode seen of a bangumi, and when it was published.
#[derive(Debug, Clone, Default)]
pub struct Bangumi {
    pub last_update: TimeStamp,
    pub latest_episode: String,
}

/// The filter rules a fresh configuration starts with: subtitle group ids
/// and their keywords.
pub open spec fn default_filter_spec() -> Seq<(Seq<char>, Seq<Seq<char>>)> {
    seq![
        ("611"@, seq!["内封"@]),
        ("583"@, seq!["CHT"@]),
        ("570"@, seq!["内封"@]),
        ("default"@, seq!["简繁日内封"@, "简日内封"@, "简繁内封"@, "内封"@, "简体"@, "简日"@, "简繁日"@, "简中"@, "CHS"@]),
    ]
}

/// A subtitle group id and its keywords as plain text.
pub open spec fn rule_view(e: (String, SubGroup)) -> (Seq<char>, Seq<Seq<char>>) {
    (e.0@, string_views(e.1.filter_list@))
}

/// The filter rules a fresh configuration starts with, each under its
/// subtitle group id and without a group name.
pub fn default_filters() -> (r: Vec<(String, SubGroup)>)
    ensures
        r@.len() == default_filter_spec().len(),
        forall|i: int| 0 <= i < r@.len() ==> #[trigger] rule_view(r@[i]) == default_filter_spec()[i]
            && r@[i].1.name@ == Seq::<char>::empty(),
{
    let mut r: Vec<(String, SubGroup)> = Vec::new();
    r.push(("611".to_owned(), SubGroup::new_const(&["内封"])));
    r.push(("583".to_owned(), SubGroup::new_const(&["CHT"])));
    r.push(("570".to_owned(), SubGroup::new_const(&["内封"])));
    r.push((
        "default".to_owned(),
        SubGroup::new_const(&["简繁日内封", "简日内封", "简繁内封", "内封", "简体", "简日", "简繁日", "简中", "CHS"]),
    ));
    proof {
        assert(str_views(seq!["内封"]) =~= seq!["内封"@]);
        assert(str_views(seq!["CHT"]) =~= seq!["CHT"@]);
        assert(str_views(seq!["简繁日内封", "简日内封", "简繁内封", "内封", "简体", "简日", "简繁日", "简中", "CHS"])
            =~= seq!["简繁日内封"@, "简日内封"@, "简繁内封"@, "内封"@, "简体"@, "简日"@, "简繁日"@, "简中"@, "CHS"@]);
    }
    r
}

/// Removal of one element from a list.
pub trait Remove<T> {
    /// Removes the first element equal to `element`, if there is one.
    fn remove_an_element(&mut self, element: &T);
}

impl<T: PartialEq> Remove<T> for Vec<T> {
    fn remove_an_element(&mut self, element: &T)
        ensures
            T::obeys_eq_spec() ==> ({
                let first = choose|i: int| 0 <= i < old(self)@.len() && old(self)@[i].eq_spec(element) && forall|j: int| 0 <= j < i ==> !old(self)@[j].eq_spec(element);
                if exists|i: int| 0 <= i < old(self)@.len() && old(self)@[i].eq_spec(element) {
                    final(self)@ == old(self)@.remove(first)
                } else {
                    final(self)@ == old(self)@
                }
            }),
    {
        let mut i: usize = 0;
        while i < self.len()
            invariant
                i <= self@.len(),
                self@ == old(self)@,
                T::obeys_eq_spec() ==> forall|j: int| 0 <= j < i ==> !self@[j].eq_spec(element),
            decreases self@.len() - i,
        {
            if self[i] == *element {
                proof {
                    if T::obeys_eq_spec() {
                        let first = choose|k: int| 0 <= k < old(self)@.len() && old(self)@[k].eq_spec(element) && forall|j: int| 0 <= j < k ==> !old(self)@[j].eq_spec(element);
                        assert(0 <= i < old(self)@.len() && old(self)@[i as int].eq_spec(element) && forall|j: int| 0 <= j < i ==> !old(self)@[j].eq_spec(element));
                        if first < i {
                        } else if first > i {
                            assert(!old(self)@[i as int].eq_spec(element));
                        }
                    }
                }
                self.remove(i);
                return;
            }
            i = i + 1;
        }
    }
}

/// Sending a message where a failure to send is only reported.
pub trait SafeSend<T> {
    fn send_msg(&self, msg: T);
}

} // verus!
