//! The destination file name: an existing markdown file whose name contains
//! the candidate name is reused, so that its date prefix is kept; otherwise
//! the name is today's date, a hyphen and the candidate name.

use vstd::prelude::*;
use vstd::string::StringExecFns;
use crate::text::{contains, contains_spec, ends_with_md, has_md_suffix, occurs_at};

verus! {

/// An entry of the destination directory that stands for `name`: a markdown
/// file whose name contains it.
pub open spec fn is_match(entry: Seq<char>, name: Seq<char>) -> bool {
    ends_with_md(entry) && contains_spec(entry, name)
}

/// The first entry at or after `i` that matches `name`.
pub open spec fn first_match_from(entries: Seq<Seq<char>>, name: Seq<char>, i: int) -> Option<int>
    decreases entries.len() - i,
{
    if i < 0 || i >= entries.len() {
        None
    } else if is_match(entries[i], name) {
        Some(i)
    } else {
        first_match_from(entries, name, i + 1)
    }
}

pub open spec fn first_match(entries: Seq<Seq<char>>, name: Seq<char>) -> Option<int> {
    first_match_from(entries, name, 0)
}

/// A new dated name: the date, a hyphen and the candidate name.
pub open spec fn dated_name(date: Seq<char>, name: Seq<char>) -> Seq<char> {
    date + seq!['-'] + name
}

/// The destination name for a candidate name, a destination listing in its
/// order, and today's date.
pub open spec fn destination_name_spec(name: Seq<char>, entries: Seq<Seq<char>>, date: Seq<char>) -> Seq<char> {
    match first_match(entries, name) {
        Some(i) => entries[i],
        None => dated_name(date, name),
    }
}

/// `first_match_from` finds the first matching entry, and none means none.
pub proof fn lemma_first_match_from(entries: Seq<Seq<char>>, name: Seq<char>, i: int)
    requires
        0 <= i <= entries.len(),
    ensures
        match first_match_from(entries, name, i) {
            Some(k) => i <= k < entries.len() && is_match(entries[k], name)
                && forall|j: int| i <= j < k ==> !is_match(entries[j], name),
            None => forall|j: int| i <= j < entries.len() ==> !is_match(entries[j], name),
        },
    decreases entries.len() - i,
{
    if i < entries.len() && !is_match(entries[i], name) {
        lemma_first_match_from(entries, name, i + 1);
    }
}

/// Index of the first markdown entry whose name contains `name`.
pub fn find_existing(name: &str, entries: &Vec<String>) -> (r: Option<usize>)
    ensures
        match r {
            Some(i) => i < entries.len() && first_match(entries.deep_view(), name@) == Some(i as int),
            None => first_match(entries.deep_view(), name@) is None,
        },
{
    let ghost es = entries.deep_view();
    let mut i: usize = 0;
    while i < entries.len()
        invariant
            es == entries.deep_view(),
            i <= entries.len(),
            first_match(es, name@) == first_match_from(es, name@, i as int),
        decreases entries.len() - i,
    {
        assert(es[i as int] == entries[i as int]@);
        if has_md_suffix(entries[i].as_str()) && contains(entries[i].as_str(), name) {
            return Some(i);
        }
        i = i + 1;
    }
    None
}

/// The destination name, given today's date.
pub fn destination_name(name: &str, entries: &Vec<String>, date: &str) -> (r: String)
    ensures
        r@ == destination_name_spec(name@, entries.deep_view(), date@),
{
    match find_existing(name, entries) {
        Some(i) => {
            assert(entries.deep_view()[i as int] == entries[i as int]@);
            entries[i].clone()
        },
        None => {
            proof {
                reveal_strlit("-");
            }
            let r = String::from_str(date).concat("-").concat(name);
            assert(r@ =~= dated_name(date@, name@));
            r
        },
    }
}

/// Relies on chrono::Local::now and DelayedFormat's `to_string` with the
/// format `%Y-%m-%d`: the local date now. Nothing is promised of its value.
#[verifier::external_body]
fn today() -> (r: String) {
    chrono::Local::now().format("%Y-%m-%d").to_string()
}

/// The destination name, dated with today's local date where no existing
/// entry is reused.
pub fn destination_name_today(name: &str, entries: &Vec<String>) -> (r: String)
    ensures
        exists|date: Seq<char>| r@ == destination_name_spec(name@, entries.deep_view(), date),
        first_match(entries.deep_view(), name@) matches Some(i) ==> r@ == entries.deep_view()[i],
{
    let date = today();
    destination_name(name, entries, date.as_str())
}

/// Resolving the destination name is idempotent: where no entry matches, the
/// first run gives the dated name; once a file of that name is in the
/// directory, wherever the listing puts it, a later run gives that same name
/// again, whatever the date then.
pub proof fn lemma_resolution_idempotent(
    name: Seq<char>,
    entries: Seq<Seq<char>>,
    date: Seq<char>,
    later_date: Seq<char>,
    k: int,
)
    requires
        ends_with_md(name),
        forall|j: int| 0 <= j < entries.len() ==> !is_match(#[trigger] entries[j], name),
        0 <= k <= entries.len(),
    ensures
        destination_name_spec(name, entries, date) == dated_name(date, name),
        destination_name_spec(name, entries.insert(k, dated_name(date, name)), later_date)
            == dated_name(date, name),
{
    let d = dated_name(date, name);
    let after = entries.insert(k, d);
    lemma_first_match_from(entries, name, 0);
    assert(d.subrange(d.len() - 3, d.len() as int) =~= name.subrange(
        name.len() - 3,
        name.len() as int,
    ));
    let at = date.len() as int + 1;
    assert(d.subrange(at, at + name.len() as int) =~= name);
    assert(occurs_at(d, name, at));
    assert(is_match(after[k], name));
    assert forall|j: int| 0 <= j < k implies !is_match(after[j], name) by {
        assert(after[j] == entries[j]);
    }
    lemma_first_match_from(after, name, 0);
}

} // verus!
