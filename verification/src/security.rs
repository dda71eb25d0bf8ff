//! What the dispatcher refuses or strips before anything else looks at a request.

use vstd::prelude::*;

use crate::text::{has_prefix, occurs_at, occurs_in};

verus! {

/// A character with a meaning of its own in a regular expression.
pub open spec fn is_meta(c: char) -> bool {
    ||| c == '\\' || c == '.' || c == '+' || c == '*' || c == '?' || c == '(' || c == ')'
    ||| c == '|' || c == '[' || c == ']' || c == '{' || c == '}' || c == '^' || c == '$'
    ||| c == '#' || c == '&' || c == '-' || c == '~'
}

/// The text that a regular expression of plain and escaped characters stands for, nothing where
/// the expression holds more than those.
pub open spec fn literal_of(pattern: Seq<char>) -> Option<Seq<char>>
    decreases pattern.len(),
{
    if pattern.len() == 0 {
        Some(seq![])
    } else if !is_meta(pattern[0]) {
        match literal_of(pattern.skip(1)) {
            Some(rest) => Some(seq![pattern[0]] + rest),
            None => None,
        }
    } else if pattern[0] == '\\' && pattern.len() > 1 && is_meta(pattern[1]) {
        match literal_of(pattern.skip(2)) {
            Some(rest) => Some(seq![pattern[1]] + rest),
            None => None,
        }
    } else {
        None
    }
}

/// A letter of either case in lower case, any other character as it is.
pub open spec fn lower(c: char) -> char {
    if 'A' <= c <= 'Z' {
        (c as int + 32) as char
    } else {
        c
    }
}

/// Whether `c` is `wanted` but for case, for an ASCII `wanted`. The long s and the Kelvin sign
/// are case variants of `s` and `k`.
pub open spec fn same_but_case(wanted: char, c: char) -> bool {
    ||| lower(c) == lower(wanted)
    ||| c == '\u{17f}' && lower(wanted) == 's'
    ||| c == '\u{212a}' && lower(wanted) == 'k'
}

/// Whether `needle` stands in `text` from position `at` on, in letters of either case.
pub open spec fn occurs_at_in_any_case(needle: Seq<char>, text: Seq<char>, at: int) -> bool {
    &&& 0 <= at
    &&& at + needle.len() <= text.len()
    &&& forall|i: int| 0 <= i < needle.len() ==> same_but_case(#[trigger] needle[i], text[at + i])
}

/// Whether `needle` stands somewhere in `text`, in letters of either case.
pub open spec fn occurs_in_any_case(needle: Seq<char>, text: Seq<char>) -> bool {
    exists|at: int| #[trigger] occurs_at_in_any_case(needle, text, at)
}

/// Whether an expression starts with the flag for letters of either case.
pub open spec fn in_any_case(pattern: Seq<char>) -> bool {
    "(?i)"@.is_prefix_of(pattern)
}

/// The fixed text that an expression searches for, nothing where it searches for more.
pub open spec fn searched_text(pattern: Seq<char>) -> Option<Seq<char>> {
    if in_any_case(pattern) {
        literal_of(pattern.skip(4))
    } else {
        literal_of(pattern)
    }
}

/// `Regex::new` and `Regex::is_match`, for an ASCII expression that searches for a fixed text:
/// the search succeeds exactly where that text stands in the haystack, in letters of either case
/// where the expression says so. Expressions of this kind and size always compile.
#[verifier::external_body]
fn regex_finds(pattern: &str, text: &str) -> (found: bool)
    requires
        searched_text(pattern@) is Some,
        forall|i: int| 0 <= i < pattern@.len() ==> (#[trigger] pattern@[i] as int) < 128,
        pattern@.len() <= 64,
    ensures
        in_any_case(pattern@) ==> found == occurs_in_any_case(searched_text(pattern@)->0, text@),
        !in_any_case(pattern@) ==> found == occurs_in(searched_text(pattern@)->0, text@),
{
    regex::Regex::new(pattern).unwrap().is_match(text)
}

/// Whether a path holds something that no path may hold: a step to the parent directory, plain or
/// encoded, an encoded null byte, or the start of a script.
pub open spec fn path_denied(path: Seq<char>) -> bool {
    ||| occurs_in("../"@, path)
    ||| occurs_in("..\\"@, path)
    ||| occurs_in("..%2f"@, path)
    ||| occurs_in("%2e%2e"@, path)
    ||| occurs_in("%00"@, path)
    ||| occurs_in_any_case("<script"@, path)
    ||| occurs_in_any_case("javascript:"@, path)
}

/// An expression without meta characters stands for itself.
proof fn lemma_plain_literal(pattern: Seq<char>)
    requires
        forall|i: int| 0 <= i < pattern.len() ==> !is_meta(#[trigger] pattern[i]),
    ensures
        literal_of(pattern) == Some(pattern),
    decreases pattern.len(),
{
    if pattern.len() > 0 {
        lemma_plain_literal(pattern.skip(1));
        assert(seq![pattern[0]] + pattern.skip(1) =~= pattern);
    } else {
        assert(pattern =~= seq![]);
    }
}

/// What the expressions of the deny-list search for.
proof fn lemma_denied_patterns()
    ensures
        searched_text("\\.\\./"@) == Some("../"@),
        searched_text("\\.\\.\\\\"@) == Some("..\\"@),
        searched_text("\\.\\.%2f"@) == Some("..%2f"@),
        searched_text("%2e%2e"@) == Some("%2e%2e"@),
        searched_text("%00"@) == Some("%00"@),
        searched_text("(?i)<script"@) == Some("<script"@),
        searched_text("(?i)javascript:"@) == Some("javascript:"@),
        !in_any_case("\\.\\./"@),
        !in_any_case("\\.\\.\\\\"@),
        !in_any_case("\\.\\.%2f"@),
        !in_any_case("%2e%2e"@),
        !in_any_case("%00"@),
        in_any_case("(?i)<script"@),
        in_any_case("(?i)javascript:"@),
{
    reveal_strlit("(?i)");
    reveal_strlit("\\.\\./");
    reveal_strlit("../");
    reveal_strlit("\\.\\.\\\\");
    reveal_strlit("..\\");
    reveal_strlit("\\.\\.%2f");
    reveal_strlit("..%2f");
    reveal_strlit("%2e%2e");
    reveal_strlit("%00");
    reveal_strlit("(?i)<script");
    reveal_strlit("<script");
    reveal_strlit("(?i)javascript:");
    reveal_strlit("javascript:");
    lemma_plain_literal("%2e%2e"@);
    lemma_plain_literal("%00"@);
    lemma_plain_literal("<script"@);
    lemma_plain_literal("javascript:"@);
    reveal_with_fuel(literal_of, 6);
    assert(literal_of("\\.\\./"@)->0 =~= "../"@);
    assert(literal_of("\\.\\.\\\\"@)->0 =~= "..\\"@);
    assert(literal_of("\\.\\.%2f"@)->0 =~= "..%2f"@);
    assert("(?i)<script"@.skip(4) =~= "<script"@);
    assert("(?i)javascript:"@.skip(4) =~= "javascript:"@);
    assert("(?i)<script"@.subrange(0, 4) =~= "(?i)"@);
    assert("(?i)javascript:"@.subrange(0, 4) =~= "(?i)"@);
    assert("\\.\\./"@.subrange(0, 4)[0] == '\\');
    assert("\\.\\.\\\\"@.subrange(0, 4)[0] == '\\');
    assert("\\.\\.%2f"@.subrange(0, 4)[0] == '\\');
    assert("%2e%2e"@.subrange(0, 4)[0] == '%');
}

/// Whether a path is free of everything that no path may hold. Asked of every request before it
/// is routed.
pub fn path_is_safe(path: &str) -> (safe: bool)
    ensures
        safe == !path_denied(path@),
{
    proof {
        lemma_denied_patterns();
        reveal_strlit("\\.\\./");
        reveal_strlit("\\.\\.\\\\");
        reveal_strlit("\\.\\.%2f");
        reveal_strlit("%2e%2e");
        reveal_strlit("%00");
        reveal_strlit("(?i)<script");
        reveal_strlit("(?i)javascript:");
    }
    !(regex_finds("\\.\\./", path) || regex_finds("\\.\\.\\\\", path) || regex_finds(
        "\\.\\.%2f",
        path,
    ) || regex_finds("%2e%2e", path) || regex_finds("%00", path) || regex_finds(
        "(?i)<script",
        path,
    ) || regex_finds("(?i)javascript:", path))
}

/// Whether a request asks for something that no path or query may hold.
pub open spec fn request_denied(path: Seq<char>, path_and_query: Option<Seq<char>>) -> bool {
    path_denied(path) || (path_and_query matches Some(full) && path_denied(full))
}

/// The text behind an optional string.
pub open spec fn optional_text(text: Option<&str>) -> Option<Seq<char>> {
    match text {
        Some(s) => Some(s@),
        None => None,
    }
}

/// Whether the path of a request, and its query where it has one, are free of everything that
/// neither may hold.
pub fn request_is_safe(path: &str, path_and_query: Option<&str>) -> (safe: bool)
    ensures
        safe == !request_denied(path@, optional_text(path_and_query)),
{
    match path_and_query {
        Some(full) => {
            if has_prefix(full, path) {
                proof {
                    if path_denied(path@) {
                        let rest = full@.skip(path@.len() as int);
                        unsafe_part_makes_path_unsafe(seq![], path@, rest);
                        assert(seq![] + path@ + rest =~= full@);
                    }
                }
                path_is_safe(full)
            } else {
                path_is_safe(path) && path_is_safe(full)
            }
        },
        None => path_is_safe(path),
    }
}

/// What `ammonia` leaves of a text when no tag is allowed.
pub uninterp spec fn stripped(input: Seq<char>) -> Seq<char>;

/// A character that needs no care in HTML text.
pub open spec fn is_plain(c: char) -> bool {
    ' ' <= c <= '~' && c != '<' && c != '>' && c != '&'
}

/// `ammonia::Builder::clean` with an empty set of tags: what is left is text, in which every
/// angle bracket is written as an entity. Plain text is left alone.
#[verifier::external_body]
fn strip_tags(input: &str) -> (text: String)
    ensures
        text@ == stripped(input@),
        !text@.contains('<'),
        !text@.contains('>'),
        (forall|i: int| 0 <= i < input@.len() ==> is_plain(#[trigger] input@[i])) ==> text@
            == input@,
{
    ammonia::Builder::default().tags(std::collections::HashSet::new()).clean(input).to_string()
}

/// A free text field without any HTML that a browser could run.
pub fn sanitize_html(input: &str) -> (text: String)
    ensures
        text@ == stripped(input@),
        !text@.contains('<'),
        !text@.contains('>'),
        (forall|i: int| 0 <= i < input@.len() ==> is_plain(#[trigger] input@[i])) ==> text@
            == input@,
{
    strip_tags(input)
}

/// Whatever stands around it, what makes a path unsafe keeps it unsafe.
pub proof fn unsafe_part_makes_path_unsafe(before: Seq<char>, part: Seq<char>, after: Seq<char>)
    requires
        path_denied(part),
    ensures
        path_denied(before + part + after),
{
    let path = before + part + after;
    assert forall|needle: Seq<char>| #[trigger] occurs_in(needle, part) implies occurs_in(
        needle,
        path,
    ) by {
        let at = choose|at: int| #[trigger] occurs_at(needle, part, at);
        let shifted = at + before.len();
        assert(path.subrange(shifted, shifted + needle.len()) =~= part.subrange(
            at,
            at + needle.len(),
        ));
        assert(occurs_at(needle, path, shifted));
    }
    assert forall|needle: Seq<char>| #[trigger]
        occurs_in_any_case(needle, part) implies occurs_in_any_case(needle, path) by {
        let at = choose|at: int| #[trigger] occurs_at_in_any_case(needle, part, at);
        let shifted = at + before.len();
        assert forall|i: int| 0 <= i < needle.len() implies same_but_case(
            #[trigger] needle[i],
            path[shifted + i],
        ) by {
            assert(path[shifted + i] == part[at + i]);
        }
        assert(occurs_at_in_any_case(needle, path, shifted));
    }
}

/// Letters that differ in case only are taken for the same, and so are the long s and the Kelvin
/// sign for the letters they stand for. No other characters are.
pub proof fn only_case_is_ignored(wanted: char, c: char)
    ensures
        same_but_case(wanted, c) <==> {
            ||| c == wanted
            ||| 'A' <= c <= 'Z' && c as int + 32 == wanted as int
            ||| 'A' <= wanted <= 'Z' && wanted as int + 32 == c as int
            ||| c == '\u{17f}' && (wanted == 's' || wanted == 'S')
            ||| c == '\u{212a}' && (wanted == 'k' || wanted == 'K')
        },
{
}

/// A path is denied exactly where a part can be cut out of it that is a step to the parent
/// directory, plain or encoded, an encoded null byte, or the start of a script in any case. Every
/// other path is safe.
pub proof fn paths_are_denied_for_a_listed_cause(path: Seq<char>)
    ensures
        path_denied(path) <==> exists|before: Seq<char>, part: Seq<char>, after: Seq<char>|
            path == #[trigger] before.add(part).add(after) && {
                ||| part == "../"@
                ||| part == "..\\"@
                ||| part == "..%2f"@
                ||| part == "%2e%2e"@
                ||| part == "%00"@
                ||| part.len() == 7 && (forall|i: int|
                    0 <= i < 7 ==> same_but_case("<script"@[i], #[trigger] part[i]))
                ||| part.len() == 11 && (forall|i: int|
                    0 <= i < 11 ==> same_but_case("javascript:"@[i], #[trigger] part[i]))
            },
{
    reveal_strlit("<script");
    reveal_strlit("javascript:");
    if path_denied(path) {
        if occurs_in("../"@, path) {
            lemma_cut_out("../"@, path);
        } else if occurs_in("..\\"@, path) {
            lemma_cut_out("..\\"@, path);
        } else if occurs_in("..%2f"@, path) {
            lemma_cut_out("..%2f"@, path);
        } else if occurs_in("%2e%2e"@, path) {
            lemma_cut_out("%2e%2e"@, path);
        } else if occurs_in("%00"@, path) {
            lemma_cut_out("%00"@, path);
        } else if occurs_in_any_case("<script"@, path) {
            lemma_cut_out_in_any_case("<script"@, path);
        } else {
            lemma_cut_out_in_any_case("javascript:"@, path);
        }
    }
    assert forall|before: Seq<char>, part: Seq<char>, after: Seq<char>|
        path == #[trigger] before.add(part).add(after) implies ({
        &&& occurs_in(part, path)
        &&& part.len() == 7 && (forall|i: int|
            0 <= i < 7 ==> same_but_case("<script"@[i], #[trigger] part[i])) ==> occurs_in_any_case(
            "<script"@,
            path,
        )
        &&& part.len() == 11 && (forall|i: int|
            0 <= i < 11 ==> same_but_case("javascript:"@[i], #[trigger] part[i]))
            ==> occurs_in_any_case("javascript:"@, path)
    }) by {
        let at = before.len() as int;
        assert(path.subrange(at, at + part.len()) =~= part);
        assert(occurs_at(part, path, at));
        assert forall|i: int| 0 <= i < part.len() implies path[at + i] == #[trigger] part[i] by {}
        if part.len() == 7 && (forall|i: int|
            0 <= i < 7 ==> same_but_case("<script"@[i], #[trigger] part[i])) {
            assert forall|i: int| 0 <= i < 7 implies same_but_case(
                #[trigger] "<script"@[i],
                path[at + i],
            ) by {
                assert(path[at + i] == part[i]);
            }
            assert(occurs_at_in_any_case("<script"@, path, at));
        }
        if part.len() == 11 && (forall|i: int|
            0 <= i < 11 ==> same_but_case("javascript:"@[i], #[trigger] part[i])) {
            assert forall|i: int| 0 <= i < 11 implies same_but_case(
                #[trigger] "javascript:"@[i],
                path[at + i],
            ) by {
                assert(path[at + i] == part[i]);
            }
            assert(occurs_at_in_any_case("javascript:"@, path, at));
        }
    }
}

proof fn lemma_cut_out(needle: Seq<char>, path: Seq<char>)
    requires
        occurs_in(needle, path),
    ensures
        exists|before: Seq<char>, part: Seq<char>, after: Seq<char>|
            path == #[trigger] before.add(part).add(after) && part == needle,
{
    let at = choose|at: int| #[trigger] occurs_at(needle, path, at);
    assert(path =~= path.take(at).add(needle).add(path.skip(at + needle.len())));
}

proof fn lemma_cut_out_in_any_case(needle: Seq<char>, path: Seq<char>)
    requires
        occurs_in_any_case(needle, path),
    ensures
        exists|before: Seq<char>, part: Seq<char>, after: Seq<char>|
            path == #[trigger] before.add(part).add(after) && part.len() == needle.len() && (forall|
                i: int,
            | 0 <= i < needle.len() ==> same_but_case(needle[i], #[trigger] part[i])),
{
    let at = choose|at: int| #[trigger] occurs_at_in_any_case(needle, path, at);
    let part = path.subrange(at, at + needle.len());
    assert(path =~= path.take(at).add(part).add(path.skip(at + needle.len())));
    assert forall|i: int| 0 <= i < needle.len() implies same_but_case(
        needle[i],
        #[trigger] part[i],
    ) by {
        assert(part[i] == path[at + i]);
        assert(same_but_case(needle[i], path[at + i]));
    }
}

/// A path without two dots in a row, without `%2e` and `%00`, and without `<` and `:` is safe,
/// whatever else it holds.
pub proof fn ordinary_paths_are_safe(path: Seq<char>)
    requires
        forall|i: int|
            #![trigger path[i]]
            0 <= i < path.len() ==> path[i] != '<' && path[i] != ':' && !(path[i] == '.' && i + 1
                < path.len() && path[i + 1] == '.') && !(path[i] == '%' && i + 2 < path.len() && (
            path[i + 1] == '2' && path[i + 2] == 'e' || path[i + 1] == '0' && path[i + 2] == '0')),
    ensures
        !path_denied(path),
{
    reveal_strlit("../");
    reveal_strlit("..\\");
    reveal_strlit("..%2f");
    reveal_strlit("%2e%2e");
    reveal_strlit("%00");
    reveal_strlit("<script");
    reveal_strlit("javascript:");
    assert forall|needle: Seq<char>, at: int| #[trigger]
        occurs_at(needle, path, at) implies (forall|i: int|
        0 <= i < needle.len() ==> path[at + i] == #[trigger] needle[i]) by {
        assert forall|i: int| 0 <= i < needle.len() implies path[at + i] == #[trigger] needle[i] by {
            assert(path.subrange(at, at + needle.len())[i] == needle[i]);
        }
    }
    assert forall|at: int| !(#[trigger] occurs_at("../"@, path, at)) by {
        if occurs_at("../"@, path, at) {
            assert("../"@[0] == '.' && "../"@[1] == '.');
            assert(path[at + 0] == '.' && path[at + 1] == '.');
        }
    }
    assert forall|at: int| !(#[trigger] occurs_at("..\\"@, path, at)) by {
        if occurs_at("..\\"@, path, at) {
            assert("..\\"@[0] == '.' && "..\\"@[1] == '.');
            assert(path[at + 0] == '.' && path[at + 1] == '.');
        }
    }
    assert forall|at: int| !(#[trigger] occurs_at("..%2f"@, path, at)) by {
        if occurs_at("..%2f"@, path, at) {
            assert("..%2f"@[0] == '.' && "..%2f"@[1] == '.');
            assert(path[at + 0] == '.' && path[at + 1] == '.');
        }
    }
    assert forall|at: int| !(#[trigger] occurs_at("%2e%2e"@, path, at)) by {
        if occurs_at("%2e%2e"@, path, at) {
            assert("%2e%2e"@[0] == '%' && "%2e%2e"@[1] == '2' && "%2e%2e"@[2] == 'e');
            assert(path[at + 0] == '%' && path[at + 1] == '2' && path[at + 2] == 'e');
        }
    }
    assert forall|at: int| !(#[trigger] occurs_at("%00"@, path, at)) by {
        if occurs_at("%00"@, path, at) {
            assert("%00"@[0] == '%' && "%00"@[1] == '0' && "%00"@[2] == '0');
            assert(path[at + 0] == '%' && path[at + 1] == '0' && path[at + 2] == '0');
        }
    }
    assert forall|at: int| !(#[trigger] occurs_at_in_any_case("<script"@, path, at)) by {
        if occurs_at_in_any_case("<script"@, path, at) {
            assert(same_but_case("<script"@[0], path[at + 0]));
        }
    }
    assert forall|at: int| !(#[trigger] occurs_at_in_any_case("javascript:"@, path, at)) by {
        if occurs_at_in_any_case("javascript:"@, path, at) {
            assert(same_but_case("javascript:"@[10], path[at + 10]));
        }
    }
}

/// A request is denied exactly where its path is, or its path and query together are.
pub proof fn requests_are_denied_for_path_or_query(path: Seq<char>, full: Seq<char>)
    ensures
        request_denied(path, None) <==> path_denied(path),
        request_denied(path, Some(full)) <==> path_denied(path) || path_denied(full),
{
}

/// Printable ASCII needs no care, but for the two angle brackets and the ampersand.
pub proof fn plain_text_is_printable(c: char)
    ensures
        is_plain(c) <==> 32 <= c as int <= 126 && c != '<' && c != '>' && c != '&',
{
}

/// An expression of letters, digits and other plain characters searches for itself, in any case
/// behind the flag for it. A dot or a backslash is searched for behind a backslash.
pub proof fn expressions_search_for_their_text(text: Seq<char>, rest: Seq<char>)
    requires
        forall|i: int|
            0 <= i < text.len() ==> 'a' <= #[trigger] text[i] <= 'z' || '0' <= text[i] <= '9'
                || text[i] == '%' || text[i] == '/' || text[i] == '<' || text[i] == ':',
    ensures
        searched_text(text) == Some(text) && !in_any_case(text),
        searched_text("(?i)"@ + text) == Some(text) && in_any_case("(?i)"@ + text),
        literal_of(rest) matches Some(t) ==> literal_of(seq!['\\', '.'] + rest) == Some(
            seq!['.'] + t,
        ),
        literal_of(rest) matches Some(t) ==> literal_of(seq!['\\', '\\'] + rest) == Some(
            seq!['\\'] + t,
        ),
{
    reveal_strlit("(?i)");
    assert forall|i: int| 0 <= i < text.len() implies !is_meta(#[trigger] text[i]) by {}
    lemma_plain_literal(text);
    if "(?i)"@.is_prefix_of(text) {
        assert(text.subrange(0, 4)[0] == '(');
        assert(is_meta(text[0]));
    }
    let flagged = "(?i)"@ + text;
    assert(flagged.subrange(0, 4) =~= "(?i)"@);
    assert(flagged.skip(4) =~= text);
    assert((seq!['\\', '.'] + rest).skip(2) =~= rest);
    assert((seq!['\\', '\\'] + rest).skip(2) =~= rest);
}

} // verus!
