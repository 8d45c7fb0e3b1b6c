//! Choosing the source file: the explicit name where one is given, else the
//! most recently modified markdown file of the source directory.

use vstd::prelude::*;
use vstd::string::StringExecFns;
use crate::text::{ends_with_md, has_md_suffix};

verus! {

/// A file of the source directory and its last modification time, in
/// nanoseconds from the Unix epoch (negative before it).
#[derive(Debug)]
pub struct MarkdownFile {
    pub name: String,
    pub modified: i128,
}

pub open spec fn is_markdown(f: MarkdownFile) -> bool {
    ends_with_md(f.name@)
}

/// `i` is the file to pick: a markdown file modified no earlier than any
/// other, and later than every markdown file listed before it.
pub open spec fn is_latest(files: Seq<MarkdownFile>, i: int) -> bool {
    &&& 0 <= i < files.len()
    &&& is_markdown(files[i])
    &&& forall|j: int|
        0 <= j < files.len() && is_markdown(#[trigger] files[j]) ==> files[j].modified
            <= files[i].modified
    &&& forall|j: int|
        0 <= j < i && is_markdown(#[trigger] files[j]) ==> files[j].modified < files[i].modified
}

/// Index of the most recently modified markdown file; of several modified at
/// the same latest time, the first listed. `None` where there is no markdown
/// file.
pub fn latest_markdown(files: &Vec<MarkdownFile>) -> (r: Option<usize>)
    ensures
        match r {
            Some(i) => is_latest(files@, i as int),
            None => forall|j: int| 0 <= j < files@.len() ==> !is_markdown(#[trigger] files@[j]),
        },
{
    let mut best: Option<usize> = None;
    let mut i: usize = 0;
    while i < files.len()
        invariant
            i <= files@.len(),
            match best {
                Some(b) => b < i && is_latest(files@.subrange(0, i as int), b as int),
                None => forall|j: int| 0 <= j < i ==> !is_markdown(#[trigger] files@[j]),
            },
        decreases files.len() - i,
    {
        let ghost prefix = files@.subrange(0, i as int);
        let ghost next = files@.subrange(0, i + 1);
        assert(forall|j: int| 0 <= j < i ==> next[j] == prefix[j]);
        if has_md_suffix(files[i].name.as_str()) {
            match best {
                None => {
                    best = Some(i);
                },
                Some(b) => {
                    if files[b].modified < files[i].modified {
                        best = Some(i);
                    }
                },
            }
        }
        proof {
            assert(next[i as int] == files@[i as int]);
        }
        i = i + 1;
    }
    assert(files@.subrange(0, files@.len() as int) =~= files@);
    best
}

/// The source file's name: `explicit` where it is not empty, else the most
/// recently modified markdown file. `None` where neither gives one.
pub fn select_source(explicit: &str, files: &Vec<MarkdownFile>) -> (r: Option<String>)
    ensures
        explicit@.len() > 0 ==> (r matches Some(n) && n@ == explicit@),
        explicit@.len() == 0 ==> match r {
            Some(n) => exists|i: int| is_latest(files@, i) && n@ == files@[i].name@,
            None => forall|j: int| 0 <= j < files@.len() ==> !is_markdown(#[trigger] files@[j]),
        },
{
    if !explicit.is_empty() {
        return Some(String::from_str(explicit));
    }
    match latest_markdown(files) {
        Some(i) => Some(files[i].name.clone()),
        None => None,
    }
}

} // verus!
