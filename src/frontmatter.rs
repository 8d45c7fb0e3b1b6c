//! Finding the frontmatter block of a markdown file and the title it gives.
//!
//! The block opens with `---` and a whitespace character and closes at the
//! nearest later whitespace character followed by `---`. Inside it, the title
//! is the rest of the line after the first `title: `.

use vstd::prelude::*;
use vstd::string::StringExecFns;
use crate::text::{drop_quotes, is_ws, md_ext, occurs_at, strip_quotes, trim_end, trim_end_spec};

verus! {

/// `---` stands in `s` at position `i`.
pub open spec fn dashes_at(s: Seq<char>, i: int) -> bool {
    0 <= i && i + 3 <= s.len() && s[i] == '-' && s[i + 1] == '-' && s[i + 2] == '-'
}

/// A block can open at `i`: `---` and a whitespace character.
pub open spec fn opens_at(s: Seq<char>, i: int) -> bool {
    dashes_at(s, i) && i + 4 <= s.len() && is_ws(s[i + 3])
}

/// A block can close at `j`: a whitespace character and `---`.
pub open spec fn closes_at(s: Seq<char>, j: int) -> bool {
    0 <= j && dashes_at(s, j + 1) && is_ws(s[j])
}

/// The first position at or after `j` where a block can close.
pub open spec fn close_from(s: Seq<char>, j: int) -> Option<int>
    decreases s.len() - j,
{
    if j < 0 || j + 4 > s.len() {
        None
    } else if closes_at(s, j) {
        Some(j)
    } else {
        close_from(s, j + 1)
    }
}

/// The first block that starts at or after `i`: the leftmost opening that
/// some closing follows, up to the nearest such closing.
pub open spec fn block_from(s: Seq<char>, i: int) -> Option<Seq<char>>
    decreases s.len() - i,
{
    if i < 0 || i + 4 > s.len() {
        None
    } else if opens_at(s, i) && close_from(s, i + 4) is Some {
        Some(s.subrange(i, close_from(s, i + 4)->0 + 4))
    } else {
        block_from(s, i + 1)
    }
}

/// The frontmatter block of a file's content, delimiters included.
pub open spec fn frontmatter_of(s: Seq<char>) -> Option<Seq<char>> {
    block_from(s, 0)
}

/// `title: `
pub open spec fn title_key() -> Seq<char> {
    seq!['t', 'i', 't', 'l', 'e', ':', ' ']
}

/// The first position at or after `k` where `title: ` stands.
pub open spec fn key_from(b: Seq<char>, k: int) -> Option<int>
    decreases b.len() - k,
{
    if k < 0 || k + 7 > b.len() {
        None
    } else if occurs_at(b, title_key(), k) {
        Some(k)
    } else {
        key_from(b, k + 1)
    }
}

/// The end of the line that holds position `k`: the next newline, or the end.
pub open spec fn line_end_from(b: Seq<char>, k: int) -> int
    decreases b.len() - k,
{
    if k < 0 || k >= b.len() {
        b.len() as int
    } else if b[k] == '\n' {
        k
    } else {
        line_end_from(b, k + 1)
    }
}

/// The raw title value of a block: the rest of the line after the first
/// `title: `.
pub open spec fn title_value_of(b: Seq<char>) -> Option<Seq<char>> {
    match key_from(b, 0) {
        Some(k) => Some(b.subrange(k + 7, line_end_from(b, k + 7))),
        None => None,
    }
}

/// The file name that a raw title value gives: trailing whitespace trimmed,
/// double quotes removed, the markdown extension appended.
pub open spec fn title_file_name(v: Seq<char>) -> Seq<char> {
    drop_quotes(trim_end_spec(v)) + md_ext()
}

#[derive(PartialEq, Eq, Structural, Clone, Copy, Debug)]
pub enum TitleError {
    /// The content has a frontmatter block, but no `title: ` line in it.
    MissingTitle,
}

/// What title lookup gives for a file's content: `Ok(None)` where there is no
/// frontmatter block.
pub open spec fn title_of(s: Seq<char>) -> Result<Option<Seq<char>>, TitleError> {
    match frontmatter_of(s) {
        None => Ok(None),
        Some(b) => match title_value_of(b) {
            None => Err(TitleError::MissingTitle),
            Some(v) => Ok(Some(title_file_name(v))),
        },
    }
}

pub open spec fn lookup_view(r: Result<Option<String>, TitleError>) -> Result<
    Option<Seq<char>>,
    TitleError,
> {
    match r {
        Ok(t) => Ok(t.deep_view()),
        Err(e) => Err(e),
    }
}

/// Relies on regex::Regex::find with the pattern `---\s((.|\s)*?)\s---`
/// (`\s` is Unicode White_Space, `.` any character but a newline): the
/// leftmost-first match, that is the leftmost opening that some closing
/// follows, ended by the lazy group at the nearest closing.
#[verifier::external_body]
fn find_frontmatter(content: &str) -> (r: Option<String>)
    ensures
        r.deep_view() == frontmatter_of(content@),
{
    let re = regex::Regex::new("---\\s((.|\\s)*?)\\s---").unwrap();
    re.find(content).map(|m| m.as_str().to_string())
}

/// Relies on regex::Regex::captures with the pattern `title: (.*)`: group 1
/// of the leftmost match, which runs from after the first `title: ` up to the
/// next newline or the end (`.` matches no newline).
#[verifier::external_body]
fn capture_title(block: &str) -> (r: Option<String>)
    ensures
        r.deep_view() == title_value_of(block@),
{
    let re = regex::Regex::new("title: (.*)").unwrap();
    re.captures(block).map(|c| c[1].to_string())
}

/// The destination file name that the frontmatter's title gives. A block
/// without a `title: ` line is an error, while content without a block gives
/// `Ok(None)`, where the caller falls back to the source file's name.
pub fn get_title(content: &str) -> (r: Result<Option<String>, TitleError>)
    ensures
        lookup_view(r) == title_of(content@),
{
    match find_frontmatter(content) {
        None => Ok(None),
        Some(block) => match capture_title(block.as_str()) {
            None => Err(TitleError::MissingTitle),
            Some(value) => {
                let trimmed = trim_end(value.as_str());
                let unquoted = strip_quotes(trimmed.as_str());
                proof {
                    reveal_strlit(".md");
                }
                let name = unquoted.concat(".md");
                assert(name@ =~= title_file_name(value@));
                Ok(Some(name))
            },
        },
    }
}

/// The base name for the destination: the title's file name, or the source
/// file's own name where there is no frontmatter block.
pub open spec fn candidate_of(content: Seq<char>, source_name: Seq<char>) -> Result<Seq<char>, TitleError> {
    match title_of(content) {
        Ok(Some(t)) => Ok(t),
        Ok(None) => Ok(source_name),
        Err(e) => Err(e),
    }
}

pub open spec fn candidate_view(r: Result<String, TitleError>) -> Result<Seq<char>, TitleError> {
    match r {
        Ok(t) => Ok(t@),
        Err(e) => Err(e),
    }
}

/// The base name for the destination: the title's file name, or the source
/// file's own name where the content has no frontmatter block.
pub fn candidate_name(content: &str, source_name: &str) -> (r: Result<String, TitleError>)
    ensures
        candidate_view(r) == candidate_of(content@, source_name@),
{
    match get_title(content) {
        Ok(Some(t)) => Ok(t),
        Ok(None) => Ok(String::from_str(source_name)),
        Err(e) => Err(e),
    }
}

/// Where no block can even open from position `i` on, there is no block.
proof fn lemma_no_block_from(s: Seq<char>, i: int)
    requires
        0 <= i,
        forall|k: int| i <= k ==> !opens_at(s, k),
    ensures
        block_from(s, i) is None,
    decreases s.len() - i,
{
    if i + 4 <= s.len() {
        lemma_no_block_from(s, i + 1);
    }
}

/// Content without a frontmatter block (no `---` followed by whitespace
/// anywhere) has no title, and the source file's own name is the candidate.
pub proof fn lemma_no_frontmatter_falls_back(content: Seq<char>, source_name: Seq<char>)
    requires
        forall|k: int| !opens_at(content, k),
    ensures
        title_of(content) == Ok::<Option<Seq<char>>, TitleError>(None),
        candidate_of(content, source_name) == Ok::<Seq<char>, TitleError>(source_name),
{
    lemma_no_block_from(content, 0);
}

/// The nearest closing from `a` on is the first one that the range shows.
proof fn lemma_close_at(s: Seq<char>, a: int, b: int)
    requires
        0 <= a <= b,
        b + 4 <= s.len(),
        closes_at(s, b),
        forall|j: int| a <= j < b ==> !closes_at(s, j),
    ensures
        close_from(s, a) == Some(b),
    decreases b - a,
{
    if a < b {
        lemma_close_at(s, a + 1, b);
    }
}

/// The line from `a` ends at the first newline that the range shows.
proof fn lemma_line_end_at(b: Seq<char>, a: int, e: int)
    requires
        0 <= a <= e < b.len(),
        b[e] == '\n',
        forall|k: int| a <= k < e ==> b[k] != '\n',
    ensures
        line_end_from(b, a) == e,
    decreases e - a,
{
    if a < e {
        lemma_line_end_at(b, a + 1, e);
    }
}

/// Removing the quotes of an opening quote and a text without quotes leaves
/// the text.
proof fn lemma_drop_leading_quote(x: Seq<char>)
    requires
        forall|k: int| 0 <= k < x.len() ==> x[k] != '"',
    ensures
        drop_quotes(seq!['"'] + x) == x,
    decreases x.len(),
{
    let q = seq!['"'] + x;
    if x.len() == 0 {
        assert(q.last() == '"');
        assert(q.drop_last() =~= Seq::<char>::empty());
        assert(drop_quotes(Seq::<char>::empty()) == Seq::<char>::empty());
        assert(x =~= Seq::<char>::empty());
    } else {
        assert(q.last() == x.last());
        assert(x.last() != '"');
        assert(q.drop_last() =~= seq!['"'] + x.drop_last());
        lemma_drop_leading_quote(x.drop_last());
        assert(x.drop_last().push(x.last()) =~= x);
    }
}

/// A file that opens with a frontmatter block whose first line is
/// `title: "X"` gets `X.md` as its title's file name, where `X` holds no
/// quote, no newline and no `---`.
pub proof fn lemma_title_of_quoted(x: Seq<char>, rest: Seq<char>)
    requires
        forall|k: int| 0 <= k < x.len() ==> x[k] != '"' && x[k] != '\n',
        forall|k: int| !dashes_at(x, k),
    ensures
        title_of(
            seq!['-', '-', '-', '\n'] + title_key() + seq!['"'] + x + seq!['"', '\n', '-', '-', '-']
                + rest,
        ) == Ok::<Option<Seq<char>>, TitleError>(Some(x + md_ext())),
{
    let l = x.len() as int;
    let s = seq!['-', '-', '-', '\n'] + title_key() + seq!['"'] + x + seq!['"', '\n', '-', '-', '-']
        + rest;
    assert(s.len() == l + 17 + rest.len());
    assert(forall|k: int| 0 <= k < l ==> s[12 + k] == x[k]);
    assert(s[0] == '-' && s[1] == '-' && s[2] == '-' && s[3] == '\n');
    assert(s[4] == 't' && s[5] == 'i' && s[6] == 't' && s[7] == 'l' && s[8] == 'e');
    assert(s[9] == ':' && s[10] == ' ' && s[11] == '"');
    assert(s[12 + l] == '"' && s[13 + l] == '\n');
    assert(s[14 + l] == '-' && s[15 + l] == '-' && s[16 + l] == '-');
    assert(opens_at(s, 0));
    assert forall|j: int| 4 <= j < 13 + l implies !closes_at(s, j) by {
        if j + 1 >= 12 && j + 3 < 12 + l {
            assert(!dashes_at(x, j - 11));
        }
    }
    assert(closes_at(s, 13 + l));
    lemma_close_at(s, 4, 13 + l);
    let b = s.subrange(0, 17 + l);
    assert(frontmatter_of(s) == Some(b));
    assert(b.subrange(4, 11) =~= title_key());
    assert(!occurs_at(b, title_key(), 0)) by {
        assert(b.subrange(0, 7)[0] == '-');
    }
    assert(!occurs_at(b, title_key(), 1)) by {
        assert(b.subrange(1, 8)[0] == '-');
    }
    assert(!occurs_at(b, title_key(), 2)) by {
        assert(b.subrange(2, 9)[0] == '-');
    }
    assert(!occurs_at(b, title_key(), 3)) by {
        assert(b.subrange(3, 10)[0] == '\n');
    }
    assert(key_from(b, 4) == Some(4int));
    assert(key_from(b, 3) == Some(4int));
    assert(key_from(b, 2) == Some(4int));
    assert(key_from(b, 1) == Some(4int));
    assert(key_from(b, 0) == Some(4int));
    lemma_line_end_at(b, 11, 13 + l);
    let v = b.subrange(11, 13 + l);
    assert(title_value_of(b) == Some(v));
    assert(v =~= seq!['"'] + x + seq!['"']);
    assert(trim_end_spec(v) == v);
    assert(v.drop_last() =~= seq!['"'] + x);
    lemma_drop_leading_quote(x);
    assert(drop_quotes(v) == x);
}

} // verus!
