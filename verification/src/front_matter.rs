use vstd::prelude::*;

use crate::chars::{chars_of, extend, slice, text_of};
use crate::substitute::stands_at;

verus! {

/// A fence of `n` hyphens.
pub open spec fn fence(n: nat) -> Seq<char> {
    Seq::new(n, |i: int| '-')
}

/// Whether a fence of `n` hyphens stands in `text` at offset `at`.
pub open spec fn fence_at(text: Seq<char>, n: nat, at: int) -> bool {
    0 <= at <= text.len() && fence(n).is_prefix_of(text.skip(at))
}

/// The offset of the first fence of `n` hyphens in `text` that starts at
/// `from` or later, if there is one.
pub open spec fn fence_from(text: Seq<char>, n: nat, from: int) -> Option<int>
    decreases text.len() - from,
{
    if from < 0 || from + n > text.len() {
        None
    } else if fence_at(text, n, from) {
        Some(from)
    } else {
        fence_from(text, n, from + 1)
    }
}

/// The metadata and the body of a post.
///
/// The front matter starts at the first three hyphens of the text. The metadata
/// runs from there to the next four hyphens, and the body from those to the
/// next four after them: each part is as short as it can be. A text without
/// these three fences has no front matter.
pub open spec fn front_matter(content: Seq<char>) -> Option<(Seq<char>, Seq<char>)> {
    match fence_from(content, 3, 0) {
        None => None,
        Some(open) => match fence_from(content, 4, open + 3) {
            None => None,
            Some(middle) => match fence_from(content, 4, middle + 4) {
                None => None,
                Some(close) => Some(
                    (content.subrange(open + 3, middle), content.subrange(middle + 4, close)),
                ),
            },
        },
    }
}

/// A fence that was found lies inside the text, at or after the place where
/// the search began, and no fence starts between the two.
pub proof fn lemma_fence_from(text: Seq<char>, n: nat, from: int)
    ensures
        fence_from(text, n, from) matches Some(at) ==> {
            &&& 0 <= from <= at
            &&& at + n <= text.len()
            &&& fence_at(text, n, at)
            &&& forall|k: int| from <= k < at ==> !fence_at(text, n, k)
        },
        fence_from(text, n, from) is None ==> forall|k: int|
            0 <= from <= k ==> !fence_at(text, n, k),
    decreases text.len() - from,
{
    if from < 0 || from + n > text.len() {
    } else if fence_at(text, n, from) {
    } else {
        lemma_fence_from(text, n, from + 1);
    }
}

/// The first fence at or after `from` is the one at `at`, where one stands
/// there and none starts between the two.
pub proof fn lemma_fence_found(text: Seq<char>, n: nat, from: int, at: int)
    requires
        0 <= from <= at,
        fence_at(text, n, at),
        forall|k: int| from <= k < at ==> !fence_at(text, n, k),
    ensures
        fence_from(text, n, from) == Some(at),
    decreases at - from,
{
    if from < at {
        lemma_fence_found(text, n, from + 1, at);
    }
}

/// A fence stands in a text where it stands in a part of the text that holds
/// the whole place: `part` lies in `text` at offset `shift`.
proof fn lemma_fence_in_part(text: Seq<char>, part: Seq<char>, shift: int, n: nat, k: int)
    requires
        0 <= shift,
        shift + part.len() <= text.len(),
        text.subrange(shift, shift + part.len()) == part,
        0 <= k,
        k + n <= part.len(),
    ensures
        fence_at(text, n, shift + k) == fence_at(part, n, k),
{
    let in_text = text.skip(shift + k).subrange(0, n as int);
    let in_part = part.skip(k).subrange(0, n as int);
    assert forall|i: int| 0 <= i < n implies #[trigger] in_text[i] == in_part[i] by {
        assert(part[k + i] == text.subrange(shift, shift + part.len())[k + i]);
    }
    assert(in_text =~= in_part);
}

/// A post that is put together from its parts has these parts.
///
/// The post is `before`, three hyphens, the metadata, four hyphens, the body,
/// four hyphens and `after`. Its front matter is this metadata and this body
/// where the three hyphens are the first of the post, and the four hyphens
/// behind the metadata and behind the body are the first from where each of
/// the two begins.
pub proof fn lemma_front_matter_of_parts(
    before: Seq<char>,
    metadata: Seq<char>,
    body: Seq<char>,
    after: Seq<char>,
)
    requires
        fence_from(before + fence(3), 3, 0) == Some(before.len() as int),
        fence_from(metadata + fence(4), 4, 0) == Some(metadata.len() as int),
        fence_from(body + fence(4), 4, 0) == Some(body.len() as int),
    ensures
        front_matter(before + fence(3) + metadata + fence(4) + body + fence(4) + after) == Some(
            (metadata, body),
        ),
{
    let content = before + fence(3) + metadata + fence(4) + body + fence(4) + after;
    let open = before.len() as int;
    let middle = open + 3 + metadata.len();
    let close = middle + 4 + body.len();
    let head = before + fence(3);
    let mid = metadata + fence(4);
    let tail = body + fence(4);
    assert(content.subrange(0, head.len() as int) =~= head);
    assert(content.subrange(open + 3, open + 3 + mid.len()) =~= mid);
    assert(content.subrange(middle + 4, middle + 4 + tail.len()) =~= tail);
    lemma_fence_from(head, 3, 0);
    lemma_fence_from(mid, 4, 0);
    lemma_fence_from(tail, 4, 0);
    assert forall|k: int| 0 <= k <= open implies fence_at(content, 3, k) == fence_at(
        head,
        3,
        k,
    ) by {
        lemma_fence_in_part(content, head, 0, 3, k);
    }
    lemma_fence_found(content, 3, 0, open);
    assert forall|k: int| open + 3 <= k <= middle implies fence_at(content, 4, k) == fence_at(
        mid,
        4,
        k - (open + 3),
    ) by {
        lemma_fence_in_part(content, mid, open + 3, 4, k - (open + 3));
    }
    lemma_fence_found(content, 4, open + 3, middle);
    assert forall|k: int| middle + 4 <= k <= close implies fence_at(content, 4, k) == fence_at(
        tail,
        4,
        k - (middle + 4),
    ) by {
        lemma_fence_in_part(content, tail, middle + 4, 4, k - (middle + 4));
    }
    lemma_fence_found(content, 4, middle + 4, close);
    assert(content.subrange(open + 3, middle) =~= metadata);
    assert(content.subrange(middle + 4, close) =~= body);
}

/// `n` hyphens.
fn hyphens(n: usize) -> (out: Vec<char>)
    ensures
        out@ == fence(n as nat),
{
    let mut out: Vec<char> = Vec::new();
    while out.len() < n
        invariant
            out.len() <= n,
            out@ == fence(out.len() as nat),
        decreases n - out.len(),
    {
        out.push('-');
    }
    out
}

/// The offset of the first fence of `n` hyphens at or after `from`.
fn find_fence(text: &Vec<char>, n: usize, from: usize) -> (at: Option<usize>)
    ensures
        match at {
            Some(at) => fence_from(text@, n as nat, from as int) == Some(at as int),
            None => fence_from(text@, n as nat, from as int) is None,
        },
{
    let pattern = hyphens(n);
    let mut at: usize = from;
    while at <= text.len() && n <= text.len() - at
        invariant
            pattern@ == fence(n as nat),
            from <= at,
            fence_from(text@, n as nat, at as int) == fence_from(text@, n as nat, from as int),
        decreases text.len() - at,
    {
        if stands_at(text, at, &pattern) {
            return Some(at);
        }
        at += 1;
    }
    None
}

/// Splits a post into its metadata and its body. A post without front matter
/// gives nothing.
pub fn split_front_matter(content: &str) -> (parts: Option<(String, String)>)
    ensures
        match parts {
            Some((metadata, body)) => front_matter(content@) == Some((metadata@, body@)),
            None => front_matter(content@) is None,
        },
{
    let text = chars_of(content);
    proof {
        lemma_fence_from(text@, 3, 0);
    }
    match find_fence(&text, 3, 0) {
        None => None,
        Some(open) => {
            proof {
                lemma_fence_from(text@, 4, open + 3);
            }
            match find_fence(&text, 4, open + 3) {
                None => None,
                Some(middle) => {
                    proof {
                        lemma_fence_from(text@, 4, middle + 4);
                    }
                    match find_fence(&text, 4, middle + 4) {
                        None => None,
                        Some(close) => Some(
                            (
                                text_of(&slice(&text, open + 3, middle)),
                                text_of(&slice(&text, middle + 4, close)),
                            ),
                        ),
                    }
                },
            }
        },
    }
}

/// The metadata of a post as a YAML document: the metadata behind the three
/// hyphens that open a document.
pub fn metadata_document(metadata: &str) -> (document: String)
    ensures
        document@ == fence(3) + metadata@,
{
    let mut out = hyphens(3);
    let chars = chars_of(metadata);
    extend(&mut out, &chars);
    text_of(&out)
}

} // verus!
