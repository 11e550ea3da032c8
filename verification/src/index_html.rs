//! Splitting the text of an index page around the element that the rendered
//! application is placed into.
//!
//! The element is found by its `id="..."` attribute. Everything up to and
//! including the `>` that closes the element's opening tag goes before the
//! application's markup; the rest of the page goes after it.

use vstd::prelude::*;
use vstd::string::*;

verus! {

/// Why an index page cannot be split.
#[derive(Clone, Copy, Debug, PartialEq, Eq, Structural)]
pub enum IndexHtmlError {
    /// The page holds no `id="..."` attribute with the root id.
    MissingRootId,
    /// No `>` follows that attribute.
    UnclosedRootTag,
}

/// An index page in two parts, around the place of the application.
#[derive(Clone, Debug)]
pub struct IndexHtml {
    /// The page up to the end of the root element's opening tag.
    pub pre_main: String,
    /// The rest of the page.
    pub post_main: String,
}

/// `needle` stands in `hay` at position `at`.
pub open spec fn occurs_at(hay: Seq<char>, needle: Seq<char>, at: int) -> bool {
    &&& 0 <= at
    &&& at + needle.len() <= hay.len()
    &&& hay.subrange(at, at + needle.len()) == needle
}

/// `at` is the first position from `from` on at which `needle` stands in
/// `hay`.
pub open spec fn is_first_from(hay: Seq<char>, needle: Seq<char>, from: int, at: int) -> bool {
    &&& from <= at
    &&& occurs_at(hay, needle, at)
    &&& forall|k: int| from <= k < at ==> !occurs_at(hay, needle, k)
}

/// The first position from `from` on at which `needle` stands in `hay`, if
/// there is one.
pub open spec fn first_from(hay: Seq<char>, needle: Seq<char>, from: int) -> Option<int> {
    if exists|at: int| is_first_from(hay, needle, from, at) {
        Some(choose|at: int| is_first_from(hay, needle, from, at))
    } else {
        None
    }
}

/// The attribute by which the root element is found: `id="`, the root id, `"`.
pub open spec fn root_marker(root_id: Seq<char>) -> Seq<char> {
    seq!['i', 'd', '=', '"'] + root_id + seq!['"']
}

/// The two parts of `contents` around the root element `root_id`: the cut is
/// made right behind the first `>` that follows the first occurrence of the
/// root marker.
pub open spec fn split_around_root(contents: Seq<char>, root_id: Seq<char>) -> Result<
    (Seq<char>, Seq<char>),
    IndexHtmlError,
> {
    let marker = root_marker(root_id);
    match first_from(contents, marker, 0) {
        None => Err(IndexHtmlError::MissingRootId),
        Some(at) => match first_from(contents, seq!['>'], at + marker.len()) {
            None => Err(IndexHtmlError::UnclosedRootTag),
            Some(close) => Ok((contents.take(close + 1), contents.skip(close + 1))),
        },
    }
}

/// There is only one first position.
pub proof fn lemma_first_from_is(hay: Seq<char>, needle: Seq<char>, from: int, at: int)
    requires
        is_first_from(hay, needle, from, at),
    ensures
        first_from(hay, needle, from) == Some(at),
{
    let chosen: int = choose|at: int| is_first_from(hay, needle, from, at);
    assert(is_first_from(hay, needle, from, chosen));
    if chosen < at {
        assert(!occurs_at(hay, needle, chosen));
    }
    if at < chosen {
        assert(!occurs_at(hay, needle, at));
    }
}

/// Where `needle` stands nowhere from `from` on, there is no first position.
pub proof fn lemma_first_from_is_none(hay: Seq<char>, needle: Seq<char>, from: int)
    requires
        forall|k: int| from <= k ==> !occurs_at(hay, needle, k),
    ensures
        first_from(hay, needle, from) is None,
{
}

/// Where `needle` stands somewhere from `from` on, there is a first position,
/// and it is no later than any position at which `needle` stands.
pub proof fn lemma_first_from_is_some(hay: Seq<char>, needle: Seq<char>, from: int, at: int)
    requires
        from <= at,
        occurs_at(hay, needle, at),
    ensures
        first_from(hay, needle, from) matches Some(first) && from <= first <= at && is_first_from(
            hay,
            needle,
            from,
            first,
        ),
    decreases at - from,
{
    if occurs_at(hay, needle, from) {
        lemma_first_from_is(hay, needle, from, from);
    } else {
        lemma_first_from_is_some(hay, needle, from + 1, at);
        let first: int = first_from(hay, needle, from + 1)->0;
        lemma_first_from_is(hay, needle, from, first);
    }
}

/// When a page can be split: it is refused for a missing root id exactly if
/// the root marker stands nowhere in it, and for an unclosed tag exactly if
/// the marker stands in it and no `>` follows the first one.
pub proof fn lemma_split_is_refused(contents: Seq<char>, root_id: Seq<char>)
    ensures
        split_around_root(contents, root_id) == Err::<(Seq<char>, Seq<char>), IndexHtmlError>(
            IndexHtmlError::MissingRootId,
        ) <==> forall|k: int| !occurs_at(contents, root_marker(root_id), k),
        split_around_root(contents, root_id) == Err::<(Seq<char>, Seq<char>), IndexHtmlError>(
            IndexHtmlError::UnclosedRootTag,
        ) <==> exists|at: int|
            is_first_from(contents, root_marker(root_id), 0, at) && forall|k: int|
                at + root_marker(root_id).len() <= k < contents.len() ==> contents[k] != '>',
{
    let marker = root_marker(root_id);
    let bracket = seq!['>'];
    if exists|k: int| occurs_at(contents, marker, k) {
        let k: int = choose|k: int| occurs_at(contents, marker, k);
        lemma_first_from_is_some(contents, marker, 0, k);
        let at: int = first_from(contents, marker, 0)->0;
        let behind: int = at + marker.len();
        if exists|c: int| behind <= c < contents.len() && contents[c] == '>' {
            let c: int = choose|c: int| behind <= c < contents.len() && contents[c] == '>';
            assert(contents.subrange(c, c + 1) =~= bracket);
            lemma_first_from_is_some(contents, bracket, behind, c);
            assert forall|other: int| is_first_from(contents, marker, 0, other) implies !forall|
                k: int,
            |
                other + marker.len() <= k < contents.len() ==> contents[k] != '>' by {
                lemma_first_from_is(contents, marker, 0, other);
            }
        } else {
            assert forall|c: int| behind <= c implies !occurs_at(contents, bracket, c) by {
                if occurs_at(contents, bracket, c) {
                    assert(contents.subrange(c, c + 1)[0] == '>');
                }
            }
            lemma_first_from_is_none(contents, bracket, behind);
        }
    } else {
        lemma_first_from_is_none(contents, marker, 0);
    }
}

/// The two parts of a page that was split make up the page, and the first
/// part ends with the `>` behind the root marker.
pub proof fn lemma_split_parts(
    contents: Seq<char>,
    root_id: Seq<char>,
    pre_main: Seq<char>,
    post_main: Seq<char>,
)
    requires
        split_around_root(contents, root_id) == Ok::<(Seq<char>, Seq<char>), IndexHtmlError>(
            (pre_main, post_main),
        ),
    ensures
        pre_main + post_main == contents,
        pre_main.len() > root_marker(root_id).len(),
        pre_main.last() == '>',
        exists|at: int|
            is_first_from(pre_main, root_marker(root_id), 0, at) && is_first_from(
                pre_main,
                seq!['>'],
                at + root_marker(root_id).len(),
                pre_main.len() - 1,
            ),
{
    let marker = root_marker(root_id);
    let bracket = seq!['>'];
    let at: int = first_from(contents, marker, 0)->0;
    let close: int = first_from(contents, bracket, at + marker.len())->0;
    assert(is_first_from(contents, marker, 0, at));
    assert(is_first_from(contents, bracket, at + marker.len(), close));
    assert(pre_main == contents.take(close + 1));
    assert(contents.subrange(close, close + 1)[0] == '>');
    assert(pre_main + post_main =~= contents);
    assert(pre_main.subrange(at, at + marker.len()) =~= contents.subrange(at, at + marker.len()));
    assert forall|k: int| 0 <= k < at implies !occurs_at(pre_main, marker, k) by {
        if occurs_at(pre_main, marker, k) {
            assert(contents.subrange(k, k + marker.len()) =~= pre_main.subrange(
                k,
                k + marker.len(),
            ));
            assert(occurs_at(contents, marker, k));
        }
    }
    assert(pre_main.subrange(close, close + 1) =~= bracket);
    assert forall|k: int| at + marker.len() <= k < close implies !occurs_at(
        pre_main,
        bracket,
        k,
    ) by {
        if occurs_at(pre_main, bracket, k) {
            assert(contents.subrange(k, k + 1) =~= pre_main.subrange(k, k + 1));
            assert(occurs_at(contents, bracket, k));
        }
    }
    assert(is_first_from(pre_main, marker, 0, at));
}

fn chars_of(text: &str) -> (chars: Vec<char>)
    ensures
        chars@ == text@,
{
    let mut chars: Vec<char> = Vec::new();
    for c in it: text.chars()
        invariant
            chars@ == it.seq().take(it.index() as int),
            it.seq() == text@,
    {
        chars.push(c);
    }
    chars
}

fn stands_at(hay: &Vec<char>, needle: &Vec<char>, at: usize) -> (stands: bool)
    ensures
        stands == occurs_at(hay@, needle@, at as int),
{
    if at > hay.len() || needle.len() > hay.len() - at {
        return false;
    }
    let mut k: usize = 0;
    while k < needle.len()
        invariant
            k <= needle.len(),
            at + needle.len() <= hay.len(),
            forall|j: int| 0 <= j < k ==> hay@[at + j] == needle@[j],
        decreases needle.len() - k,
    {
        if hay[at + k] != needle[k] {
            assert(hay@.subrange(at as int, at + needle.len())[k as int] != needle@[k as int]);
            return false;
        }
        k += 1;
    }
    assert(hay@.subrange(at as int, at + needle.len()) =~= needle@);
    true
}

fn find_from(hay: &Vec<char>, needle: &Vec<char>, from: usize) -> (found: Option<usize>)
    ensures
        match found {
            Some(at) => {
                &&& is_first_from(hay@, needle@, from as int, at as int)
                &&& first_from(hay@, needle@, from as int) == Some(at as int)
            },
            None => first_from(hay@, needle@, from as int) is None,
        },
{
    if from > hay.len() {
        proof {
            lemma_first_from_is_none(hay@, needle@, from as int);
        }
        return None;
    }
    let mut at: usize = from;
    loop
        invariant_except_break
            from <= at <= hay.len(),
            forall|k: int| from <= k < at ==> !occurs_at(hay@, needle@, k),
        ensures
            forall|k: int| from <= k ==> !occurs_at(hay@, needle@, k),
        decreases hay.len() - at,
    {
        if stands_at(hay, needle, at) {
            proof {
                lemma_first_from_is(hay@, needle@, from as int, at as int);
            }
            return Some(at);
        }
        if at == hay.len() {
            break;
        }
        at += 1;
    }
    proof {
        lemma_first_from_is_none(hay@, needle@, from as int);
    }
    None
}

fn marker_for(root_id: &str) -> (marker: Vec<char>)
    ensures
        marker@ == root_marker(root_id@),
{
    let mut marker: Vec<char> = Vec::new();
    marker.push('i');
    marker.push('d');
    marker.push('=');
    marker.push('"');
    let mut id = chars_of(root_id);
    marker.append(&mut id);
    marker.push('"');
    assert(marker@ =~= root_marker(root_id@));
    marker
}

/// Splits the text of an index page around the root element `root_id`, or
/// says why it cannot be split.
pub fn split_index_html(contents: &str, root_id: &str) -> (split: Result<
    IndexHtml,
    IndexHtmlError,
>)
    ensures
        match split {
            Ok(index) => split_around_root(contents@, root_id@) == Ok::<
                (Seq<char>, Seq<char>),
                IndexHtmlError,
            >((index.pre_main@, index.post_main@)),
            Err(error) => split_around_root(contents@, root_id@) == Err::<
                (Seq<char>, Seq<char>),
                IndexHtmlError,
            >(error),
        },
{
    let page = chars_of(contents);
    let page_len: usize = page.len();
    let marker = marker_for(root_id);
    let at: usize = match find_from(&page, &marker, 0) {
        Some(at) => at,
        None => {
            return Err(IndexHtmlError::MissingRootId);
        },
    };
    let mut bracket: Vec<char> = Vec::new();
    bracket.push('>');
    assert(bracket@ =~= seq!['>']);
    let close: usize = match find_from(&page, &bracket, at + marker.len()) {
        Some(close) => close,
        None => {
            return Err(IndexHtmlError::UnclosedRootTag);
        },
    };
    let pre_main = String::from_str(contents.substring_char(0, close + 1));
    let post_main = String::from_str(contents.substring_char(close + 1, page_len));
    Ok(IndexHtml { pre_main, post_main })
}

/// The two parts of an index page that can be split.
pub fn load_index_html(contents: &str, root_id: &str) -> (index: IndexHtml)
    requires
        split_around_root(contents@, root_id@) is Ok,
    ensures
        split_around_root(contents@, root_id@) == Ok::<(Seq<char>, Seq<char>), IndexHtmlError>(
            (index.pre_main@, index.post_main@),
        ),
{
    split_index_html(contents, root_id).unwrap()
}

} // verus!
