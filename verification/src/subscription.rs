//! Subscriptions: which (dashboard, tab) selectors are watched, and the set
//! of distinct dashboards a poll cycle has to fetch.

use vstd::prelude::*;
use crate::text::str_eq;

verus! {

/// A selector for the tabs a user wants watched. A subscription with no tab
/// name matches every tab under its dashboard.
#[derive(Debug)]
pub struct Subscription {
    pub id: String,
    pub subscription_type: String,
    pub dashboard_name: String,
    pub tab_name: Option<String>,
    pub test_name: Option<String>,
}

impl Clone for Subscription {
    fn clone(&self) -> (s: Self)
        ensures
            s == *self,
    {
        Subscription {
            id: self.id.clone(),
            subscription_type: self.subscription_type.clone(),
            dashboard_name: self.dashboard_name.clone(),
            tab_name: clone_opt_string(&self.tab_name),
            test_name: clone_opt_string(&self.test_name),
        }
    }
}

fn clone_opt_string(o: &Option<String>) -> (r: Option<String>)
    ensures
        r == *o,
{
    match o {
        Some(s) => Some(s.clone()),
        None => None,
    }
}

/// Whether one subscription selects the given tab of the given dashboard:
/// the dashboard names agree and the subscription either names no tab
/// (wildcard) or names exactly this one.
pub open spec fn sub_matches(sub: Subscription, dashboard: Seq<char>, tab: Seq<char>) -> bool {
    &&& sub.dashboard_name@ == dashboard
    &&& match sub.tab_name {
        Some(t) => t@ == tab,
        None => true,
    }
}

/// Whether some subscription in the set selects the given tab.
pub open spec fn watched(subs: Seq<Subscription>, dashboard: Seq<char>, tab: Seq<char>) -> bool {
    exists|i: int| 0 <= i < subs.len() && sub_matches(subs[i], dashboard, tab)
}

/// A wildcard subscription (no tab name) matches every tab under its
/// dashboard.
pub proof fn lemma_wildcard_matches_every_tab(sub: Subscription, tab: Seq<char>)
    requires
        sub.tab_name is None,
    ensures
        sub_matches(sub, sub.dashboard_name@, tab),
{
}

/// A set holding a wildcard subscription watches every tab under that
/// subscription's dashboard.
pub proof fn lemma_wildcard_watches_every_tab(subs: Seq<Subscription>, i: int, tab: Seq<char>)
    requires
        0 <= i < subs.len(),
        subs[i].tab_name is None,
    ensures
        watched(subs, subs[i].dashboard_name@, tab),
{
    assert(sub_matches(subs[i], subs[i].dashboard_name@, tab));
}

/// Decide whether any subscription in the list selects the given tab.
pub fn is_watched(subs: &Vec<Subscription>, dashboard: &str, tab: &str) -> (r: bool)
    ensures
        r == watched(subs@, dashboard@, tab@),
{
    let mut i: usize = 0;
    while i < subs.len()
        invariant
            i <= subs.len(),
            forall|j: int| 0 <= j < i ==> !sub_matches(subs@[j], dashboard@, tab@),
        decreases subs.len() - i,
    {
        let sub = &subs[i];
        let dash_ok = str_eq(sub.dashboard_name.as_str(), dashboard);
        let tab_ok = match &sub.tab_name {
            Some(t) => str_eq(t.as_str(), tab),
            None => true,
        };
        if dash_ok && tab_ok {
            assert(sub_matches(subs@[i as int], dashboard@, tab@));
            return true;
        }
        i = i + 1;
    }
    false
}

/// The dashboards named by at least one subscription in the set.
pub open spec fn dashboard_set(subs: Seq<Subscription>) -> Set<Seq<char>> {
    Set::new(|d: Seq<char>| exists|i: int| 0 <= i < subs.len() && subs[i].dashboard_name@ == d)
}

/// Whether some string in the sequence has the given view.
pub open spec fn names_contain(v: Seq<String>, d: Seq<char>) -> bool {
    exists|j: int| 0 <= j < v.len() && v[j]@ == d
}

proof fn lemma_names_contain_push(v: Seq<String>, x: String, d: Seq<char>)
    requires
        names_contain(v, d),
    ensures
        names_contain(v.push(x), d),
{
    let j = choose|j: int| 0 <= j < v.len() && v[j]@ == d;
    assert(v.push(x)[j]@ == d);
}

fn vec_contains_str(v: &Vec<String>, s: &str) -> (r: bool)
    ensures
        r == names_contain(v@, s@),
{
    let mut i: usize = 0;
    while i < v.len()
        invariant
            i <= v.len(),
            forall|j: int| 0 <= j < i ==> v@[j]@ != s@,
        decreases v.len() - i,
    {
        if str_eq(v[i].as_str(), s) {
            assert(v@[i as int]@ == s@);
            return true;
        }
        i = i + 1;
    }
    false
}

/// The distinct dashboard names referenced by the subscription set, each
/// exactly once: what one poll cycle fetches.
pub fn distinct_dashboards(subs: &Vec<Subscription>) -> (r: Vec<String>)
    ensures
        forall|j: int| 0 <= j < r@.len() ==> dashboard_set(subs@).contains(r@[j]@),
        forall|i: int| 0 <= i < subs@.len() ==> names_contain(r@, #[trigger] subs@[i].dashboard_name@),
        forall|i: int, j: int| 0 <= i < j < r@.len() ==> r@[i]@ != r@[j]@,
{
    let mut r: Vec<String> = Vec::new();
    let mut i: usize = 0;
    while i < subs.len()
        invariant
            i <= subs.len(),
            forall|j: int| 0 <= j < r@.len() ==> dashboard_set(subs@).contains(r@[j]@),
            forall|k: int| 0 <= k < i ==> names_contain(r@, #[trigger] subs@[k].dashboard_name@),
            forall|j: int, k: int| 0 <= j < k < r@.len() ==> r@[j]@ != r@[k]@,
        decreases subs.len() - i,
    {
        let name = &subs[i].dashboard_name;
        if !vec_contains_str(&r, name.as_str()) {
            let ghost old_r = r@;
            r.push(name.clone());
            proof {
                assert forall|k: int| 0 <= k < i + 1 implies names_contain(
                    r@,
                    #[trigger] subs@[k].dashboard_name@,
                ) by {
                    if k < i {
                        lemma_names_contain_push(old_r, r@[r@.len() - 1], subs@[k].dashboard_name@);
                        assert(r@ =~= old_r.push(r@[r@.len() - 1]));
                    } else {
                        assert(r@[r@.len() - 1]@ == subs@[k].dashboard_name@);
                    }
                }
            }
        }
        i = i + 1;
    }
    r
}

} // verus!
