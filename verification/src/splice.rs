//! Literal substring search and the three content edits: prepend, append and
//! replace-at-anchor. Contents are byte strings; edit texts are encoded as
//! UTF-8 before they meet a content.

use vstd::prelude::*;
use vstd::slice::slice_subrange;

verus! {

/// The bytes that an edit text is written as: its UTF-8 encoding.
pub open spec fn bytes_of(text: Seq<char>) -> Seq<u8> {
    vstd::utf8::encode_utf8(text)
}

/// A text is written as its parts are, one behind the other.
pub proof fn lemma_bytes_of_concat(head: Seq<char>, tail: Seq<char>)
    ensures
        bytes_of(head + tail) == bytes_of(head) + bytes_of(tail),
    decreases head.len(),
{
    if head.len() == 0 {
        assert(head + tail =~= tail);
        assert(bytes_of(head) + bytes_of(tail) =~= bytes_of(tail));
    } else {
        let whole = head + tail;
        assert(whole.drop_first() =~= head.drop_first() + tail);
        assert(whole[0] == head[0]);
        lemma_bytes_of_concat(head.drop_first(), tail);
        let first = vstd::utf8::encode_scalar(head[0] as u32);
        assert(first + (bytes_of(head.drop_first()) + bytes_of(tail)) =~= (first + bytes_of(
            head.drop_first(),
        )) + bytes_of(tail));
    }
}

/// `needle` stands in `hay` at offset `at`.
pub open spec fn occurs_at(hay: Seq<u8>, needle: Seq<u8>, at: int) -> bool {
    &&& 0 <= at
    &&& at + needle.len() <= hay.len()
    &&& hay.subrange(at, at + needle.len()) == needle
}

/// `needle` stands somewhere in `hay`.
pub open spec fn occurs(hay: Seq<u8>, needle: Seq<u8>) -> bool {
    exists|at: int| occurs_at(hay, needle, at)
}

/// `at` is the leftmost offset at which `needle` stands in `hay`.
pub open spec fn is_first_occurrence(hay: Seq<u8>, needle: Seq<u8>, at: int) -> bool {
    &&& occurs_at(hay, needle, at)
    &&& forall|earlier: int| 0 <= earlier < at ==> !occurs_at(hay, needle, earlier)
}

/// The leftmost offset at which `needle` stands in `hay`; meaningful when
/// `occurs(hay, needle)`.
pub open spec fn first_occurrence(hay: Seq<u8>, needle: Seq<u8>) -> int {
    choose|at: int| is_first_occurrence(hay, needle, at)
}

/// Does `needle` stand in `hay` at offset `at`?
fn matches_at(hay: &[u8], needle: &[u8], at: usize) -> (hit: bool)
    requires
        at + needle@.len() <= hay@.len(),
    ensures
        hit == occurs_at(hay@, needle@, at as int),
{
    let mut k: usize = 0;
    while k < needle.len()
        invariant
            k <= needle.len(),
            at + needle.len() <= hay.len(),
            forall|j: int| 0 <= j < k ==> hay@[at + j] == needle@[j],
        decreases needle.len() - k,
    {
        if hay[at + k] != needle[k] {
            assert(hay@.subrange(at as int, at + needle@.len())[k as int] != needle@[k as int]);
            return false;
        }
        k += 1;
    }
    assert(hay@.subrange(at as int, at + needle@.len()) =~= needle@);
    true
}

/// The leftmost offset of `needle` in `hay`, if it stands there at all. An
/// empty needle stands at offset 0 of every content.
pub fn find_first(hay: &[u8], needle: &[u8]) -> (found: Option<usize>)
    ensures
        match found {
            Some(at) => is_first_occurrence(hay@, needle@, at as int),
            None => !occurs(hay@, needle@),
        },
{
    if needle.len() > hay.len() {
        return None;
    }
    let last: usize = hay.len() - needle.len();
    let mut at: usize = 0;
    loop
        invariant
            last == hay.len() - needle.len(),
            at <= last,
            forall|earlier: int| 0 <= earlier < at ==> !occurs_at(hay@, needle@, earlier),
        decreases last - at,
    {
        if matches_at(hay, needle, at) {
            return Some(at);
        }
        if at == last {
            return None;
        }
        at += 1;
    }
}

/// `text` put immediately before `content`.
pub open spec fn prepended(content: Seq<u8>, text: Seq<u8>) -> Seq<u8> {
    text + content
}

/// `text` put immediately after `content`.
pub open spec fn appended(content: Seq<u8>, text: Seq<u8>) -> Seq<u8> {
    content + text
}

/// `content` with the `cut` bytes from offset `at` on exchanged for
/// `replacement`.
pub open spec fn spliced(content: Seq<u8>, at: int, cut: int, replacement: Seq<u8>) -> Seq<u8> {
    content.subrange(0, at) + replacement + content.subrange(at + cut, content.len() as int)
}

/// `content` with the leftmost occurrence of `anchor` exchanged for
/// `replacement`; meaningful when `occurs(content, anchor)`.
pub open spec fn replaced(content: Seq<u8>, anchor: Seq<u8>, replacement: Seq<u8>) -> Seq<u8> {
    spliced(content, first_occurrence(content, anchor), anchor.len() as int, replacement)
}

/// There is only one leftmost occurrence.
pub proof fn lemma_first_occurrence_is(hay: Seq<u8>, needle: Seq<u8>, at: int)
    requires
        is_first_occurrence(hay, needle, at),
    ensures
        first_occurrence(hay, needle) == at,
        occurs(hay, needle),
{
    let chosen = first_occurrence(hay, needle);
    assert(is_first_occurrence(hay, needle, chosen));
    if chosen < at {
        assert(!occurs_at(hay, needle, chosen));
    }
    if at < chosen {
        assert(!occurs_at(hay, needle, at));
    }
}

/// A needle that stands at `bound` has a leftmost occurrence, at `bound` or
/// before it.
proof fn lemma_least_occurrence(hay: Seq<u8>, needle: Seq<u8>, bound: int) -> (at: int)
    requires
        occurs_at(hay, needle, bound),
    ensures
        is_first_occurrence(hay, needle, at),
        at <= bound,
    decreases bound,
{
    if exists|earlier: int| 0 <= earlier < bound && occurs_at(hay, needle, earlier) {
        let earlier = choose|earlier: int| 0 <= earlier < bound && occurs_at(hay, needle, earlier);
        lemma_least_occurrence(hay, needle, earlier)
    } else {
        bound
    }
}

/// A needle that occurs has a leftmost occurrence, and `first_occurrence`
/// names it.
pub proof fn lemma_first_occurrence_exists(hay: Seq<u8>, needle: Seq<u8>)
    requires
        occurs(hay, needle),
    ensures
        is_first_occurrence(hay, needle, first_occurrence(hay, needle)),
{
    let somewhere = choose|at: int| occurs_at(hay, needle, at);
    let at = lemma_least_occurrence(hay, needle, somewhere);
    lemma_first_occurrence_is(hay, needle, at);
}

/// `text` followed by `content`, as a new content.
pub fn prepend(content: &[u8], text: &[u8]) -> (out: Vec<u8>)
    ensures
        out@ == prepended(content@, text@),
{
    let mut out: Vec<u8> = Vec::new();
    out.extend_from_slice(text);
    out.extend_from_slice(content);
    assert(out@ =~= text@ + content@);
    out
}

/// `content` followed by `text`, as a new content.
pub fn append(content: &[u8], text: &[u8]) -> (out: Vec<u8>)
    ensures
        out@ == appended(content@, text@),
{
    let mut out: Vec<u8> = Vec::new();
    out.extend_from_slice(content);
    out.extend_from_slice(text);
    assert(out@ =~= content@ + text@);
    out
}

/// `content` with the leftmost occurrence of `anchor` exchanged for
/// `replacement`, or `None` when `anchor` does not occur. Later occurrences
/// stay as they are, and `replacement` is not searched again.
pub fn replace(content: &[u8], anchor: &[u8], replacement: &[u8]) -> (out: Option<Vec<u8>>)
    ensures
        out is Some <==> occurs(content@, anchor@),
        out matches Some(bytes) ==> bytes@ == replaced(content@, anchor@, replacement@),
{
    match find_first(content, anchor) {
        None => None,
        Some(at) => {
            proof {
                lemma_first_occurrence_is(content@, anchor@, at as int);
            }
            let end: usize = content.len();
            let mut bytes: Vec<u8> = Vec::new();
            bytes.extend_from_slice(slice_subrange(content, 0, at));
            bytes.extend_from_slice(replacement);
            bytes.extend_from_slice(slice_subrange(content, at + anchor.len(), end));
            assert(bytes@ =~= spliced(content@, at as int, anchor@.len() as int, replacement@));
            Some(bytes)
        },
    }
}

/// Replacing the leftmost anchor puts the replacement at the anchor's
/// offset and leaves everything before and after the anchor as it was.
pub proof fn lemma_replacement_lands_at_anchor(
    content: Seq<u8>,
    anchor: Seq<u8>,
    replacement: Seq<u8>,
    at: int,
)
    requires
        is_first_occurrence(content, anchor, at),
    ensures
        ({
            let out = replaced(content, anchor, replacement);
            &&& out.len() == content.len() - anchor.len() + replacement.len()
            &&& out.subrange(0, at) == content.subrange(0, at)
            &&& occurs_at(out, replacement, at)
            &&& out.subrange(at + replacement.len(), out.len() as int) == content.subrange(
                at + anchor.len(),
                content.len() as int,
            )
        }),
{
    lemma_first_occurrence_is(content, anchor, at);
    let out = replaced(content, anchor, replacement);
    assert(out.subrange(0, at) =~= content.subrange(0, at));
    assert(out.subrange(at, at + replacement.len()) =~= replacement);
    assert(out.subrange(at + replacement.len(), out.len() as int) =~= content.subrange(
        at + anchor.len(),
        content.len() as int,
    ));
}

/// After the leftmost occurrence of a non-empty anchor is replaced, no
/// occurrence of the anchor lies wholly before the replacement.
pub proof fn lemma_no_anchor_before_replacement(
    content: Seq<u8>,
    anchor: Seq<u8>,
    replacement: Seq<u8>,
    at: int,
)
    requires
        is_first_occurrence(content, anchor, at),
        anchor.len() > 0,
    ensures
        forall|j: int| #[trigger]
            occurs_at(replaced(content, anchor, replacement), anchor, j) ==> at < j + anchor.len(),
{
    lemma_first_occurrence_is(content, anchor, at);
    let out = replaced(content, anchor, replacement);
    assert forall|j: int| #[trigger] occurs_at(out, anchor, j) implies at < j + anchor.len() by {
        if j + anchor.len() <= at {
            assert(content.subrange(j, j + anchor.len()) =~= out.subrange(j, j + anchor.len()));
            assert(occurs_at(content, anchor, j));
        }
    }
}

/// Where a non-empty anchor occurs exactly once, replacing it leaves no
/// occurrence of the anchor outside the replacement: each one that the new
/// content holds shares at least one byte with the replacement.
pub proof fn lemma_single_anchor_is_consumed(
    content: Seq<u8>,
    anchor: Seq<u8>,
    replacement: Seq<u8>,
    at: int,
)
    requires
        occurs_at(content, anchor, at),
        forall|other: int| other != at ==> !occurs_at(content, anchor, other),
        anchor.len() > 0,
    ensures
        forall|j: int| #[trigger]
            occurs_at(replaced(content, anchor, replacement), anchor, j) ==> at < j + anchor.len()
                && j < at + replacement.len(),
{
    assert(is_first_occurrence(content, anchor, at));
    lemma_first_occurrence_is(content, anchor, at);
    lemma_no_anchor_before_replacement(content, anchor, replacement, at);
    let out = replaced(content, anchor, replacement);
    assert forall|j: int| #[trigger] occurs_at(out, anchor, j) implies j < at
        + replacement.len() by {
        if j >= at + replacement.len() {
            let back = j - replacement.len() + anchor.len();
            assert(content.subrange(back, back + anchor.len()) =~= out.subrange(
                j,
                j + anchor.len(),
            ));
            assert(occurs_at(content, anchor, back));
        }
    }
}

/// Only the leftmost occurrence is replaced: an occurrence that begins at or
/// after the end of the leftmost one is still there, moved by the difference
/// in length between replacement and anchor.
pub proof fn lemma_later_occurrence_untouched(
    content: Seq<u8>,
    anchor: Seq<u8>,
    replacement: Seq<u8>,
    at: int,
    later: int,
)
    requires
        is_first_occurrence(content, anchor, at),
        occurs_at(content, anchor, later),
        at + anchor.len() <= later,
    ensures
        occurs_at(
            replaced(content, anchor, replacement),
            anchor,
            later - anchor.len() + replacement.len(),
        ),
{
    lemma_first_occurrence_is(content, anchor, at);
    let out = replaced(content, anchor, replacement);
    let moved = later - anchor.len() + replacement.len();
    assert(out.subrange(moved, moved + anchor.len()) =~= content.subrange(
        later,
        later + anchor.len(),
    ));
}

/// Appending keeps the order of the calls and does not merge equal texts:
/// two appends leave the content followed by the first text, then the second.
pub proof fn lemma_append_twice(content: Seq<u8>, first: Seq<u8>, second: Seq<u8>)
    ensures
        appended(appended(content, first), second) == content + first + second,
        appended(appended(content, first), first) == content + first + first,
{
}

/// Prepending puts the later text before the earlier one.
pub proof fn lemma_prepend_twice(content: Seq<u8>, first: Seq<u8>, second: Seq<u8>)
    ensures
        prepended(prepended(content, first), second) == second + first + content,
{
    assert(second + (first + content) =~= second + first + content);
}

/// A replacement that begins with the anchor keeps the extension point where
/// it was: the anchor's leftmost occurrence in the new content is at the same
/// offset.
pub proof fn lemma_anchor_survives(content: Seq<u8>, anchor: Seq<u8>, tail: Seq<u8>, at: int)
    requires
        is_first_occurrence(content, anchor, at),
    ensures
        is_first_occurrence(replaced(content, anchor, anchor + tail), anchor, at),
        replaced(content, anchor, anchor + tail) == content.subrange(0, at + anchor.len()) + tail
            + content.subrange(at + anchor.len(), content.len() as int),
{
    lemma_first_occurrence_is(content, anchor, at);
    let out = replaced(content, anchor, anchor + tail);
    assert(out =~= content.subrange(0, at + anchor.len()) + tail + content.subrange(
        at + anchor.len(),
        content.len() as int,
    ));
    assert(out.subrange(at, at + anchor.len()) =~= anchor);
    assert forall|earlier: int| 0 <= earlier < at implies !occurs_at(out, anchor, earlier) by {
        if occurs_at(out, anchor, earlier) {
            assert(content.subrange(earlier, earlier + anchor.len()) =~= out.subrange(
                earlier,
                earlier + anchor.len(),
            ));
            assert(occurs_at(content, anchor, earlier));
        }
    }
}

/// Two replacements at one extension point, each beginning with the anchor:
/// both tails are kept, the later one directly behind the anchor and the
/// earlier one behind that.
pub proof fn lemma_stacked_replacements(
    content: Seq<u8>,
    anchor: Seq<u8>,
    earlier_tail: Seq<u8>,
    later_tail: Seq<u8>,
    at: int,
)
    requires
        is_first_occurrence(content, anchor, at),
    ensures
        replaced(replaced(content, anchor, anchor + earlier_tail), anchor, anchor + later_tail)
            == content.subrange(0, at) + anchor + later_tail + earlier_tail + content.subrange(
            at + anchor.len(),
            content.len() as int,
        ),
{
    let once = replaced(content, anchor, anchor + earlier_tail);
    lemma_anchor_survives(content, anchor, earlier_tail, at);
    lemma_first_occurrence_is(once, anchor, at);
    lemma_first_occurrence_is(content, anchor, at);
    let twice = replaced(once, anchor, anchor + later_tail);
    assert(twice =~= content.subrange(0, at) + anchor + later_tail + earlier_tail
        + content.subrange(at + anchor.len(), content.len() as int));
}

} // verus!
