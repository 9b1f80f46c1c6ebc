//! Small verified helpers over strings: equality, concatenation, the cache
//! key format, and the texts handed to the notification sink.

use vstd::prelude::*;
use vstd::string::StringExecFns;

verus! {

/// String-slice equality, decided through owned `String` comparison so that
/// the result is pinned to view equality.
pub fn str_eq(a: &str, b: &str) -> (r: bool)
    ensures
        r == (a@ == b@),
{
    let owned_a: String = a.to_owned();
    let owned_b: String = b.to_owned();
    owned_a == owned_b
}

/// Concatenation of three string slices.
pub fn concat3(a: &str, b: &str, c: &str) -> (r: String)
    ensures
        r@ == a@ + b@ + c@,
{
    let mut r = a.to_owned();
    r.append(b);
    r.append(c);
    r
}

/// The cache key for a tab: the dashboard name and the tab name joined by a
/// separator not expected to appear in either component.
pub open spec fn spec_key(dashboard: Seq<char>, tab: Seq<char>) -> Seq<char> {
    dashboard + ":"@ + tab
}

pub fn cache_key(dashboard: &str, tab: &str) -> (r: String)
    ensures
        r@ == spec_key(dashboard@, tab@),
{
    concat3(dashboard, ":", tab)
}

/// Title of the notification raised for a newly failing tab.
pub open spec fn spec_alert_title(tab: Seq<char>) -> Seq<char> {
    "Test Failure: "@ + tab
}

pub fn alert_title(tab: &str) -> (r: String)
    ensures
        r@ == spec_alert_title(tab@),
{
    let mut r = "Test Failure: ".to_owned();
    r.append(tab);
    r
}

/// Body of the notification raised for a newly failing tab.
pub open spec fn spec_alert_body(dashboard: Seq<char>, tab: Seq<char>) -> Seq<char> {
    "Dashboard '"@ + dashboard + "' tab '"@ + tab + "' is now failing"@
}

pub fn alert_body(dashboard: &str, tab: &str) -> (r: String)
    ensures
        r@ == spec_alert_body(dashboard@, tab@),
{
    let mut r = concat3("Dashboard '", dashboard, "' tab '");
    r.append(tab);
    r.append("' is now failing");
    r
}

/// Appending to a common prefix is injective: equal results mean equal tails.
pub proof fn lemma_append_left_cancel(a: Seq<char>, x: Seq<char>, y: Seq<char>)
    requires
        a + x == a + y,
    ensures
        x == y,
{
    assert((a + x).len() == a.len() + x.len());
    assert((a + y).len() == a.len() + y.len());
    assert(x.len() == y.len());
    assert forall|i: int| 0 <= i < x.len() implies x[i] == y[i] by {
        assert((a + x)[a.len() + i] == x[i]);
        assert((a + y)[a.len() + i] == y[i]);
    }
    assert(x =~= y);
}

/// Two cache keys under the same dashboard agree exactly when the tab names do.
pub proof fn lemma_key_injective_per_dashboard(dashboard: Seq<char>, tab1: Seq<char>, tab2: Seq<char>)
    requires
        spec_key(dashboard, tab1) == spec_key(dashboard, tab2),
    ensures
        tab1 == tab2,
{
    lemma_append_left_cancel(dashboard + ":"@, tab1, tab2);
}

/// Two alert titles agree exactly when the tab names do.
pub proof fn lemma_title_injective(tab1: Seq<char>, tab2: Seq<char>)
    requires
        spec_alert_title(tab1) == spec_alert_title(tab2),
    ensures
        tab1 == tab2,
{
    lemma_append_left_cancel("Test Failure: "@, tab1, tab2);
}

} // verus!
