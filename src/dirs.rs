//! The source and destination directories: defaults inferred from the name of
//! the working directory, overridden by the ones given.

use vstd::prelude::*;
use vstd::string::StringExecFns;
use crate::text::same_text;

verus! {

/// The name of the drafts directory.
pub open spec fn drafts_dir() -> Seq<char> {
    "writing_posts"@
}

/// The name of the published-posts directory.
pub open spec fn posts_dir() -> Seq<char> {
    "_posts"@
}

/// The default `(source, destination)` directories for a working directory
/// whose last path segment is `segment`.
pub fn default_dirs(segment: &str) -> (r: (String, String))
    ensures
        segment@ == drafts_dir() ==> r.0@ == "."@ && r.1@ == "../_posts/"@,
        segment@ == posts_dir() ==> r.0@ == "../writing_posts/"@ && r.1@ == "."@,
        segment@ != drafts_dir() && segment@ != posts_dir() ==> r.0@ == "./writing_posts/"@
            && r.1@ == "./_posts/"@,
{
    proof {
        reveal_strlit("writing_posts");
        reveal_strlit("_posts");
        assert(drafts_dir().len() != posts_dir().len());
    }
    if same_text(segment, "writing_posts") {
        (String::from_str("."), String::from_str("../_posts/"))
    } else if same_text(segment, "_posts") {
        (String::from_str("../writing_posts/"), String::from_str("."))
    } else {
        (String::from_str("./writing_posts/"), String::from_str("./_posts/"))
    }
}

/// The directory given, or the default where none was given.
pub fn pick_dir(given: &str, default: String) -> (r: String)
    ensures
        given@.len() == 0 ==> r@ == default@,
        given@.len() > 0 ==> r@ == given@,
{
    if given.is_empty() {
        default
    } else {
        String::from_str(given)
    }
}

} // verus!
