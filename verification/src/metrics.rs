//! Labels under which requests are counted.

use vstd::prelude::*;

use crate::text::{
    a_run_at_the_start_is_cut_off, chars_of, same_text, trim_start, trimmed_start,
};

verus! {

/// The position of the first `c`, or the length where there is none.
pub open spec fn index_of_or_len(text: Seq<char>, c: char) -> int
    decreases text.len(),
{
    if text.len() == 0 || text[0] == c {
        0
    } else {
        1 + index_of_or_len(text.drop_first(), c)
    }
}

/// The label of a path that no route of the dispatcher matches: its first segment, with a star
/// for whatever follows it.
pub open spec fn fallback_label(path: Seq<char>) -> Seq<char> {
    let rest = trimmed_start(path, '/');
    let end = index_of_or_len(rest, '/');
    if path == "/"@ {
        "/"@
    } else if rest.len() == 0 {
        "/other"@
    } else if end < rest.len() {
        "/"@ + rest.take(end) + "/*"@
    } else {
        "/"@ + rest
    }
}

/// The label that a request is counted under: the template of the route that matched it, or the
/// start of its path, which keeps labels few.
pub fn route_label(matched: Option<&str>, path: &str) -> (label: String)
    ensures
        match matched {
            Some(template) => label@ == template@,
            None => label@ == fallback_label(path@),
        },
{
    if let Some(template) = matched {
        return template.to_string();
    }
    if same_text(path, "/") {
        return "/".to_string();
    }
    let rest = trim_start(path, '/');
    let chars: Vec<char> = chars_of(rest);
    if chars.len() == 0 {
        return "/other".to_string();
    }
    let mut end: usize = 0;
    assert(rest@.skip(0) =~= rest@);
    while end < chars.len() && chars[end] != '/'
        invariant
            chars@ == rest@,
            end <= chars@.len(),
            index_of_or_len(rest@, '/') == end + index_of_or_len(rest@.skip(end as int), '/'),
        decreases chars@.len() - end,
    {
        assert(rest@.skip(end as int).drop_first() =~= rest@.skip(end + 1));
        end += 1;
    }
    let first = rest.substring_char(0, end);
    if end < chars.len() {
        "/".to_string().concat(first).concat("/*")
    } else {
        assert(first@ =~= rest@);
        "/".to_string().concat(first)
    }
}

/// Every path below a first segment is counted under one label.
pub proof fn paths_below_a_segment_share_a_label(segment: Seq<char>, tail: Seq<char>)
    requires
        segment.len() > 0,
        !segment.contains('/'),
    ensures
        fallback_label("/"@ + segment + "/"@ + tail) == "/"@ + segment + "/*"@,
{
    reveal_strlit("/");
    let path = "/"@ + segment + "/"@ + tail;
    let rest = segment + "/"@ + tail;
    assert(path.drop_first() =~= rest);
    assert(segment.contains(segment[0]));
    assert(trimmed_start(path, '/') == rest) by {
        reveal_with_fuel(trimmed_start, 2);
    }
    lemma_index_behind_segment(segment, "/"@ + tail);
    assert(segment + ("/"@ + tail) =~= rest);
    assert(rest.take(segment.len() as int) =~= segment);
}

proof fn lemma_index_behind_segment(segment: Seq<char>, rest: Seq<char>)
    requires
        !segment.contains('/'),
        rest.len() > 0,
        rest[0] == '/',
    ensures
        index_of_or_len(segment + rest, '/') == segment.len(),
    decreases segment.len(),
{
    if segment.len() == 0 {
        assert(segment + rest =~= rest);
    } else {
        let shorter = segment.drop_first();
        assert(segment.contains(segment[0]));
        assert forall|c: char| shorter.contains(c) implies #[trigger] segment.contains(c) by {
            let i = choose|i: int| 0 <= i < shorter.len() && shorter[i] == c;
            assert(segment[i + 1] == c);
        }
        lemma_index_behind_segment(shorter, rest);
        assert((segment + rest).drop_first() =~= shorter + rest);
    }
}

/// However many slashes lead to it, a first segment is counted by its name, and everything below
/// it under one label.
pub proof fn labels_are_first_segments(slashes: nat, segment: Seq<char>, tail: Seq<char>)
    requires
        segment.len() > 0,
        forall|i: int| 0 <= i < segment.len() ==> segment[i] != '/',
    ensures
        fallback_label(Seq::new(slashes, |i: int| '/') + segment) == seq!['/'] + segment,
        fallback_label(Seq::new(slashes, |i: int| '/') + (segment + seq!['/'] + tail)) == seq!['/']
            + segment + seq!['/', '*'],
{
    reveal_strlit("/");
    reveal_strlit("/*");
    assert("/"@ =~= seq!['/']);
    assert("/*"@ =~= seq!['/', '*']);
    assert(!segment.contains('/'));
    let run = Seq::new(slashes, |i: int| '/');
    a_run_at_the_start_is_cut_off(segment, '/', slashes);
    lemma_no_index(segment);
    assert((run + segment)[slashes as int] == segment[0]);
    let below = segment + seq!['/'] + tail;
    assert(below[0] == segment[0]);
    a_run_at_the_start_is_cut_off(below, '/', slashes);
    lemma_index_behind_segment(segment, seq!['/'] + tail);
    assert(segment + (seq!['/'] + tail) =~= below);
    assert(below.take(segment.len() as int) =~= segment);
    assert((run + below)[slashes as int] == segment[0]);
}

proof fn lemma_no_index(segment: Seq<char>)
    requires
        forall|i: int| 0 <= i < segment.len() ==> segment[i] != '/',
    ensures
        index_of_or_len(segment, '/') == segment.len(),
    decreases segment.len(),
{
    if segment.len() > 0 {
        lemma_no_index(segment.drop_first());
    }
}

/// A path without a segment is the root where it is a single slash, and something else otherwise.
pub proof fn paths_without_segments_have_labels(slashes: nat)
    ensures
        fallback_label(Seq::new(slashes, |i: int| '/')) == if slashes == 1 {
            seq!['/']
        } else {
            "/other"@
        },
{
    reveal_strlit("/");
    assert("/"@ =~= seq!['/']);
    let run = Seq::new(slashes, |i: int| '/');
    a_run_at_the_start_is_cut_off(seq![], '/', slashes);
    assert(run + seq![] =~= run);
    if slashes == 1 {
        assert(run =~= "/"@);
    } else {
        assert(run.len() != "/"@.len());
    }
}

} // verus!
