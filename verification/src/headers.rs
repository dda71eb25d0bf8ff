//! Header filtering between the client, the dispatcher and its upstreams.
//!
//! The header collection is `http::HeaderMap`, as axum and reqwest hand it over. Its contents
//! are stated through [`header_entries`], and as [`header_values`]: every name with the values it
//! holds, in order. Entries go from one map to another as they are.

use axum::http::header::{HeaderMap, HeaderName, HeaderValue};
use vstd::prelude::*;
use vstd::utf8::encode_utf8;

use crate::text::{has_prefix, same_text};

verus! {

/// `http::HeaderMap`: a multimap from header names to values.
#[verifier::external_type_specification]
#[verifier::external_body]
#[verifier::reject_recursive_types(T)]
pub struct ExHeaderMap<T>(HeaderMap<T>);

/// `http::HeaderValue`: the bytes of one header value.
#[verifier::external_type_specification]
#[verifier::external_body]
pub struct ExHeaderValue(HeaderValue);

/// What a header map holds: its names and values in the order in which they are walked. A name
/// with several values stands there once for each, in the order they were added.
pub uninterp spec fn header_entries(map: HeaderMap<HeaderValue>) -> Seq<(Seq<char>, Seq<u8>)>;

/// A byte that a header value may hold: anything but control characters, with tab allowed.
pub open spec fn is_value_byte(b: u8) -> bool {
    b == 9 || (b >= 32 && b != 127)
}

/// The bytes that make up a header value.
pub open spec fn is_field_value(value: Seq<u8>) -> bool {
    forall|i: int| 0 <= i < value.len() ==> is_value_byte(#[trigger] value[i])
}

/// A character that a stored header name may hold.
pub open spec fn is_name_char(c: char) -> bool {
    ||| 'a' <= c <= 'z'
    ||| '0' <= c <= '9'
    ||| '!' <= c <= '\''
    ||| c == '*' || c == '+' || c == '-' || c == '.'
    ||| '^' <= c <= '`'
    ||| c == '|' || c == '~'
}

/// A header name as a header map stores it, which is in lower case.
pub open spec fn is_field_name(name: Seq<char>) -> bool {
    &&& 0 < name.len() <= 65535
    &&& forall|i: int| 0 <= i < name.len() ==> is_name_char(#[trigger] name[i])
}

/// The values that `values` holds under `name`, none where the name is absent.
pub open spec fn values_under(values: Map<Seq<char>, Seq<Seq<u8>>>, name: Seq<char>) -> Seq<Seq<u8>> {
    if values.contains_key(name) {
        values[name]
    } else {
        seq![]
    }
}

/// `values` with one more value under `name`, after those already there.
pub open spec fn appended(
    values: Map<Seq<char>, Seq<Seq<u8>>>,
    name: Seq<char>,
    value: Seq<u8>,
) -> Map<Seq<char>, Seq<Seq<u8>>> {
    values.insert(name, values_under(values, name).push(value))
}

/// Entries, gathered by name.
pub open spec fn grouped(entries: Seq<(Seq<char>, Seq<u8>)>) -> Map<Seq<char>, Seq<Seq<u8>>>
    decreases entries.len(),
{
    if entries.len() == 0 {
        Map::empty()
    } else {
        appended(grouped(entries.drop_last()), entries.last().0, entries.last().1)
    }
}

/// What a header map holds: under each name, its values in the order they were added.
pub open spec fn header_values(map: HeaderMap<HeaderValue>) -> Map<Seq<char>, Seq<Seq<u8>>> {
    grouped(header_entries(map))
}

/// `HeaderMap::new`: a map that holds nothing.
#[verifier::external_body]
fn no_headers() -> (map: HeaderMap<HeaderValue>)
    ensures
        header_entries(map).len() == 0,
{
    HeaderMap::new()
}

/// `HeaderMap::iter`: the name of each entry, in the order in which the map is walked.
#[verifier::external_body]
fn entry_names(map: &HeaderMap<HeaderValue>) -> (names: Vec<String>)
    ensures
        names@.len() == header_entries(*map).len(),
        forall|i: int|
            0 <= i < names@.len() ==> (#[trigger] names@[i])@ == header_entries(*map)[i].0,
{
    map.iter().map(|(name, _)| name.as_str().to_string()).collect()
}

/// `HeaderMap::keys_len`: the number of names in the map.
#[verifier::external_body]
fn name_count(map: &HeaderMap<HeaderValue>) -> (count: usize)
    ensures
        count == header_values(*map).dom().len(),
{
    map.keys_len()
}

/// `HeaderMap::insert` with a copy of an entry of another map: its name holds its value and
/// nothing else. How many names fill a map, so that the call fails, depends on how they hash; a
/// map with fewer than 6554 names always has room.
#[verifier::external_body]
fn insert_entry(to: &mut HeaderMap<HeaderValue>, from: &HeaderMap<HeaderValue>, at: usize)
    requires
        at < header_entries(*from).len(),
        header_values(*old(to)).dom().len() < 6554,
    ensures
        header_values(*final(to)) == header_values(*old(to)).insert(
            header_entries(*from)[at as int].0,
            seq![header_entries(*from)[at as int].1],
        ),
{
    let (name, value) = from.iter().nth(at).unwrap();
    to.insert(name.clone(), value.clone());
}

/// `HeaderMap::clone`: a map with the same entries.
#[verifier::external_body]
fn copy_headers(map: &HeaderMap<HeaderValue>) -> (copy: HeaderMap<HeaderValue>)
    ensures
        header_entries(copy) == header_entries(*map),
{
    map.clone()
}

/// `HeaderMap::remove` with the name of an entry of another map: the name holds nothing any more,
/// and every other name holds what it held. In which order the names are walked from then on is
/// left unsaid.
#[verifier::external_body]
fn remove_name(map: &mut HeaderMap<HeaderValue>, from: &HeaderMap<HeaderValue>, at: usize)
    requires
        at < header_entries(*from).len(),
    ensures
        header_values(*final(map)) == header_values(*old(map)).remove(
            header_entries(*from)[at as int].0,
        ),
{
    let (name, _) = from.iter().nth(at).unwrap();
    map.remove(name);
}

/// `HeaderValue::from_str`: the text as a header value, where all of its bytes may stand in one.
/// The value comes in a map of its own, under the name that `HeaderName::from_lowercase` makes.
#[verifier::external_body]
fn single_header(name: &str, text: &str) -> (map: Option<HeaderMap<HeaderValue>>)
    requires
        is_field_name(name@),
    ensures
        map is Some <==> is_field_value(encode_utf8(text@)),
        map matches Some(m) ==> header_entries(m) == seq![(name@, encode_utf8(text@))],
{
    let value = HeaderValue::from_str(text).ok()?;
    let name = HeaderName::from_lowercase(name.as_bytes()).unwrap();
    Some(HeaderMap::from_iter([(name, value)]))
}

/// A byte that a header value may hold and be read as text.
pub open spec fn is_text_byte(b: u8) -> bool {
    b == 9 || 32 <= b < 127
}

/// The text of bytes below 128.
pub open spec fn ascii_text(bytes: Seq<u8>) -> Seq<char> {
    Seq::new(bytes.len(), |i: int| bytes[i] as char)
}

/// The first value under a name, where it can be read as text.
pub open spec fn first_text(values: Map<Seq<char>, Seq<Seq<u8>>>, name: Seq<char>) -> Option<
    Seq<char>,
> {
    let under = values_under(values, name);
    if under.len() > 0 && (forall|i: int|
        0 <= i < under[0].len() ==> is_text_byte(#[trigger] under[0][i])) {
        Some(ascii_text(under[0]))
    } else {
        None
    }
}

/// `HeaderMap::get` and `HeaderValue::to_str`: the first value under a name as text, where there
/// is one and it holds visible ASCII characters and tabs only. `get` finds no name with a quotation
/// mark, though a map can hold one, so such names are left out.
#[verifier::external_body]
pub(crate) fn header_text(map: &HeaderMap<HeaderValue>, name: &str) -> (text: Option<String>)
    requires
        is_field_name(name@),
        !name@.contains('"'),
    ensures
        text is Some <==> first_text(header_values(*map), name@) is Some,
        text matches Some(t) ==> first_text(header_values(*map), name@) == Some(t@),
{
    let value = map.get(name)?;
    match value.to_str() {
        Ok(text) => Some(text.to_string()),
        Err(_) => None,
    }
}

/// The names of client headers that reach an upstream, besides all that start with
/// `x-forwarded-`.
pub open spec fn listed_names() -> Set<Seq<char>> {
    set![
        "accept"@,
        "accept-encoding"@,
        "accept-language"@,
        "authorization"@,
        "content-type"@,
        "content-length"@,
        "user-agent"@,
        "x-real-ip"@,
        "x-request-id"@,
        "traceparent"@,
        "tracestate"@,
        "idempotency-key"@,
        "x-api-key"@,
        "stripe-signature"@,
        "x-webhook-signature"@,
    ]
}

/// The name of the header that carries the secret shared with the upstreams.
pub open spec fn internal_token() -> Seq<char> {
    "x-internal-token"@
}

/// Whether a client header of this name reaches an upstream. The internal token is the
/// dispatcher's own.
pub open spec fn is_forwarded_name(name: Seq<char>) -> bool {
    &&& name != internal_token()
    &&& listed_names().contains(name) || "x-forwarded-"@.is_prefix_of(name)
}

/// Whether a client header of this name reaches an upstream.
pub fn is_forwarded_header(name: &str) -> (forwarded: bool)
    ensures
        forwarded == is_forwarded_name(name@),
{
    if same_text(name, "x-internal-token") {
        return false;
    }
    has_prefix(name, "x-forwarded-") || same_text(name, "accept") || same_text(
        name,
        "accept-encoding",
    ) || same_text(name, "accept-language") || same_text(name, "authorization") || same_text(
        name,
        "content-type",
    ) || same_text(name, "content-length") || same_text(name, "user-agent") || same_text(
        name,
        "x-real-ip",
    ) || same_text(name, "x-request-id") || same_text(name, "traceparent") || same_text(
        name,
        "tracestate",
    ) || same_text(name, "idempotency-key") || same_text(name, "x-api-key") || same_text(
        name,
        "stripe-signature",
    ) || same_text(name, "x-webhook-signature")
}

/// Hop-by-hop header names, which never reach the client.
pub open spec fn hop_by_hop_names() -> Set<Seq<char>> {
    set![
        "connection"@,
        "transfer-encoding"@,
        "keep-alive"@,
        "proxy-authenticate"@,
        "proxy-authorization"@,
        "te"@,
        "trailers"@,
        "upgrade"@,
    ]
}

/// Whether an upstream header of this name is withheld from the client.
pub fn is_hop_by_hop_header(name: &str) -> (dropped: bool)
    ensures
        dropped == hop_by_hop_names().contains(name@),
{
    same_text(name, "connection") || same_text(name, "transfer-encoding") || same_text(
        name,
        "keep-alive",
    ) || same_text(name, "proxy-authenticate") || same_text(name, "proxy-authorization")
        || same_text(name, "te") || same_text(name, "trailers") || same_text(name, "upgrade")
}

/// The client headers that pass the allow-list. A name that was sent several times keeps its
/// last value only.
pub open spec fn allowed(values: Map<Seq<char>, Seq<Seq<u8>>>) -> Map<Seq<char>, Seq<Seq<u8>>> {
    Map::new(
        |name: Seq<char>| values.contains_key(name) && is_forwarded_name(name),
        |name: Seq<char>| seq![values[name].last()],
    )
}

/// Whether the shared secret is one that a header can carry.
pub open spec fn carries_secret(secret: Seq<char>) -> bool {
    secret.len() > 0 && is_field_value(encode_utf8(secret))
}

/// The headers that an upstream gets for a request: the allowed ones of the client, and the
/// shared secret as internal token, where a header can carry it. What the client sent as internal
/// token goes nowhere.
pub open spec fn upstream_values(
    values: Map<Seq<char>, Seq<Seq<u8>>>,
    secret: Seq<char>,
) -> Map<Seq<char>, Seq<Seq<u8>>> {
    if carries_secret(secret) {
        allowed(values).insert(internal_token(), seq![encode_utf8(secret)])
    } else {
        allowed(values)
    }
}

/// How many names of the client's headers are forwarded at most. Together with the internal token
/// they always fit into a header map.
pub const MAX_FORWARDED_NAMES: usize = 6553;

/// Whether a client sends more headers than are forwarded.
pub open spec fn exceeds_headers(values: Map<Seq<char>, Seq<Seq<u8>>>) -> bool {
    allowed(values).dom().len() > MAX_FORWARDED_NAMES
}

/// The headers that the client gets for an upstream's response.
pub open spec fn client_values(
    values: Map<Seq<char>, Seq<Seq<u8>>>,
) -> Map<Seq<char>, Seq<Seq<u8>>> {
    values.remove_keys(hop_by_hop_names())
}

proof fn lemma_internal_token_is_a_name()
    ensures
        is_field_name(internal_token()),
{
    reveal_strlit("x-internal-token");
    let name = internal_token();
    assert forall|i: int| 0 <= i < name.len() implies is_name_char(#[trigger] name[i]) by {
        assert(name.len() == 16);
    }
}

/// The first entries name no header that all of them do not.
proof fn lemma_names_of_part(entries: Seq<(Seq<char>, Seq<u8>)>, n: int)
    requires
        0 <= n <= entries.len(),
    ensures
        grouped(entries).dom().finite(),
        grouped(entries.take(n)).dom().subset_of(grouped(entries).dom()),
    decreases entries.len(),
{
    if entries.len() > 0 {
        let rest = entries.drop_last();
        if n < entries.len() {
            lemma_names_of_part(rest, n);
            assert(rest.take(n) =~= entries.take(n));
        } else {
            lemma_names_of_part(rest, n - 1);
            assert(entries.take(n) =~= entries);
        }
    } else {
        assert(entries.take(n) =~= entries);
    }
}

/// The first entries hold no more names that are allowed than all of them do.
proof fn lemma_allowed_names_of_part(entries: Seq<(Seq<char>, Seq<u8>)>, n: int)
    requires
        0 <= n <= entries.len(),
    ensures
        allowed(grouped(entries.take(n))).dom().len() <= allowed(grouped(entries)).dom().len(),
{
    lemma_names_of_part(entries, n);
    vstd::set_lib::lemma_len_subset(allowed(grouped(entries)).dom(), grouped(entries).dom());
    vstd::set_lib::lemma_len_subset(
        allowed(grouped(entries.take(n))).dom(),
        allowed(grouped(entries)).dom(),
    );
}

/// The headers that go to an upstream with a request, unless there are too many.
pub fn upstream_headers(incoming: &HeaderMap<HeaderValue>, secret: &str) -> (outgoing: Option<
    HeaderMap<HeaderValue>,
>)
    ensures
        outgoing is None <==> exceeds_headers(header_values(*incoming)),
        outgoing matches Some(headers) ==> header_values(headers) == upstream_values(
            header_values(*incoming),
            secret@,
        ),
{
    let names = entry_names(incoming);
    let ghost entries = header_entries(*incoming);
    let mut outgoing = no_headers();
    assert(header_values(outgoing) =~= allowed(grouped(entries.take(0))));
    let mut i: usize = 0;
    while i < names.len()
        invariant
            i <= names@.len(),
            names@.len() == entries.len(),
            entries == header_entries(*incoming),
            forall|j: int| 0 <= j < names@.len() ==> (#[trigger] names@[j])@ == entries[j].0,
            header_values(outgoing) == allowed(grouped(entries.take(i as int))),
            header_values(outgoing).dom().len() <= MAX_FORWARDED_NAMES,
        decreases names@.len() - i,
    {
        let ghost before = grouped(entries.take(i as int));
        let ghost name = entries[i as int].0;
        let ghost value = entries[i as int].1;
        assert(entries.take(i + 1).drop_last() =~= entries.take(i as int));
        assert(grouped(entries.take(i + 1)) == appended(before, name, value));
        if is_forwarded_header(names[i].as_str()) {
            insert_entry(&mut outgoing, incoming, i);
            assert(allowed(appended(before, name, value)) =~= allowed(before).insert(
                name,
                seq![value],
            ));
            if name_count(&outgoing) > MAX_FORWARDED_NAMES {
                proof {
                    lemma_allowed_names_of_part(entries, i + 1);
                }
                return None;
            }
        } else {
            assert(allowed(appended(before, name, value)) =~= allowed(before));
        }
        i += 1;
    }
    assert(entries.take(entries.len() as int) =~= entries);
    if !secret.is_empty() {
        proof {
            lemma_internal_token_is_a_name();
        }
        if let Some(token) = single_header("x-internal-token", secret) {
            insert_entry(&mut outgoing, &token, 0);
        }
    }
    Some(outgoing)
}

/// Every name that entries hold stands in one of them.
proof fn lemma_names_are_entries(entries: Seq<(Seq<char>, Seq<u8>)>, name: Seq<char>)
    requires
        grouped(entries).contains_key(name),
    ensures
        exists|i: int| 0 <= i < entries.len() && (#[trigger] entries[i]).0 == name,
    decreases entries.len(),
{
    if entries.last().0 != name {
        let rest = entries.drop_last();
        lemma_names_are_entries(rest, name);
        let i = choose|i: int| 0 <= i < rest.len() && (#[trigger] rest[i]).0 == name;
        assert(entries[i].0 == name);
    } else {
        assert(entries[entries.len() - 1].0 == name);
    }
}

/// The headers that go to the client with an upstream's response.
pub fn client_headers(upstream: &HeaderMap<HeaderValue>) -> (outgoing: HeaderMap<HeaderValue>)
    ensures
        header_values(outgoing) == client_values(header_values(*upstream)),
{
    let names = entry_names(upstream);
    let ghost entries = header_entries(*upstream);
    let ghost values = header_values(*upstream);
    let mut outgoing = copy_headers(upstream);
    let ghost mut dropped: Set<Seq<char>> = Set::empty();
    assert(header_values(outgoing) =~= values.remove_keys(dropped));
    let mut i: usize = 0;
    while i < names.len()
        invariant
            i <= names@.len(),
            names@.len() == entries.len(),
            entries == header_entries(*upstream),
            forall|j: int| 0 <= j < names@.len() ==> (#[trigger] names@[j])@ == entries[j].0,
            header_values(outgoing) == values.remove_keys(dropped),
            dropped.subset_of(hop_by_hop_names()),
            forall|j: int|
                0 <= j < i && hop_by_hop_names().contains((#[trigger] entries[j]).0)
                    ==> dropped.contains(entries[j].0),
        decreases names@.len() - i,
    {
        if is_hop_by_hop_header(names[i].as_str()) {
            remove_name(&mut outgoing, upstream, i);
            let ghost name = entries[i as int].0;
            assert(values.remove_keys(dropped).remove(name) =~= values.remove_keys(
                dropped.insert(name),
            ));
            proof {
                dropped = dropped.insert(name);
            }
        }
        i += 1;
    }
    assert(values.remove_keys(dropped) =~= client_values(values)) by {
        assert forall|name: Seq<char>|
            values.contains_key(name) && hop_by_hop_names().contains(
                name,
            ) implies #[trigger] dropped.contains(name) by {
            lemma_names_are_entries(entries, name);
        }
    }
    outgoing
}

/// No header of the client outside the allow-list reaches an upstream.
pub proof fn only_forwarded_names_reach_upstreams(
    values: Map<Seq<char>, Seq<Seq<u8>>>,
    secret: Seq<char>,
    name: Seq<char>,
)
    ensures
        upstream_values(values, secret).contains_key(name) ==> is_forwarded_name(name) || (name
            == internal_token() && carries_secret(secret)),
{
}

/// The internal token that an upstream gets is the shared secret and nothing else, whatever the
/// client sends under the same name. Where no header can carry the secret, there is none.
pub proof fn internal_token_is_the_secret(
    values: Map<Seq<char>, Seq<Seq<u8>>>,
    secret: Seq<char>,
)
    ensures
        values_under(upstream_values(values, secret), internal_token()) == if carries_secret(
            secret,
        ) {
            seq![encode_utf8(secret)]
        } else {
            seq![]
        },
{
}

/// An allowed header reaches the upstream with the last value that the client gave it.
pub proof fn allowed_headers_keep_their_value(
    values: Map<Seq<char>, Seq<Seq<u8>>>,
    secret: Seq<char>,
    name: Seq<char>,
)
    requires
        values.contains_key(name),
        is_forwarded_name(name),
    ensures
        upstream_values(values, secret).contains_key(name),
        upstream_values(values, secret)[name] == seq![values[name].last()],
{
}

/// Hop-by-hop headers stay behind; every other header reaches the client with all its values.
pub proof fn only_hop_by_hop_headers_stay_behind(
    values: Map<Seq<char>, Seq<Seq<u8>>>,
    name: Seq<char>,
)
    ensures
        hop_by_hop_names().contains(name) ==> !client_values(values).contains_key(name),
        !hop_by_hop_names().contains(name) ==> values_under(client_values(values), name)
            == values_under(values, name),
{
}

/// A map holds a name exactly where one of its entries has it, and under the name the values of
/// those entries, in their order.
pub proof fn entries_are_gathered_by_name(entries: Seq<(Seq<char>, Seq<u8>)>, name: Seq<char>)
    ensures
        grouped(entries).contains_key(name) <==> exists|i: int|
            0 <= i < entries.len() && (#[trigger] entries[i]).0 == name,
        grouped(entries).contains_key(name) ==> grouped(entries)[name] == entries.filter(
            |entry: (Seq<char>, Seq<u8>)| entry.0 == name,
        ).map_values(|entry: (Seq<char>, Seq<u8>)| entry.1),
        grouped(entries).contains_key(name) ==> grouped(entries)[name].len() > 0,
    decreases entries.len(),
{
    let named = |entry: (Seq<char>, Seq<u8>)| entry.0 == name;
    let value = |entry: (Seq<char>, Seq<u8>)| entry.1;
    reveal(Seq::filter);
    if entries.len() > 0 {
        let rest = entries.drop_last();
        entries_are_gathered_by_name(rest, name);
        if grouped(rest).contains_key(name) {
            let i = choose|i: int| 0 <= i < rest.len() && (#[trigger] rest[i]).0 == name;
            assert(entries[i].0 == name);
        } else {
            assert forall|i: int| 0 <= i < rest.len() implies (#[trigger] rest[i]).0 != name by {}
            lemma_nothing_named(rest, name);
        }
        if entries.last().0 == name {
            assert(entries[entries.len() - 1].0 == name);
            assert(entries.filter(named) == rest.filter(named).push(entries.last()));
            assert(entries.filter(named).map_values(value) =~= rest.filter(named).map_values(
                value,
            ).push(entries.last().1));
        } else {
            assert(entries.filter(named) == rest.filter(named));
            if exists|i: int| 0 <= i < entries.len() && (#[trigger] entries[i]).0 == name {
                let i = choose|i: int| 0 <= i < entries.len() && (#[trigger] entries[i]).0 == name;
                assert(rest[i].0 == name);
            }
        }
    }
}

proof fn lemma_nothing_named(entries: Seq<(Seq<char>, Seq<u8>)>, name: Seq<char>)
    requires
        forall|i: int| 0 <= i < entries.len() ==> (#[trigger] entries[i]).0 != name,
    ensures
        entries.filter(|entry: (Seq<char>, Seq<u8>)| entry.0 == name).len() == 0,
    decreases entries.len(),
{
    reveal(Seq::filter);
    if entries.len() > 0 {
        let rest = entries.drop_last();
        assert forall|i: int| 0 <= i < rest.len() implies (#[trigger] rest[i]).0 != name by {
            assert(rest[i] == entries[i]);
        }
        lemma_nothing_named(rest, name);
    }
}

/// A header of the client reaches an upstream exactly if its name is in this list or starts with
/// `x-forwarded-`, and then with the last value that the client gave it. The internal token is
/// none of the client's.
pub proof fn client_headers_pass_by_this_list(
    values: Map<Seq<char>, Seq<Seq<u8>>>,
    secret: Seq<char>,
    name: Seq<char>,
)
    requires
        name != "x-internal-token"@,
    ensures
        upstream_values(values, secret).contains_key(name) <==> values.contains_key(name) && {
            ||| "x-forwarded-"@.is_prefix_of(name)
            ||| name == "accept"@
            ||| name == "accept-encoding"@
            ||| name == "accept-language"@
            ||| name == "authorization"@
            ||| name == "content-type"@
            ||| name == "content-length"@
            ||| name == "user-agent"@
            ||| name == "x-real-ip"@
            ||| name == "x-request-id"@
            ||| name == "traceparent"@
            ||| name == "tracestate"@
            ||| name == "idempotency-key"@
            ||| name == "x-api-key"@
            ||| name == "stripe-signature"@
            ||| name == "x-webhook-signature"@
        },
        upstream_values(values, secret).contains_key(name) ==> upstream_values(values, secret)[name]
            == seq![values[name][values[name].len() - 1]],
{
}

/// Whatever the client sends, an upstream gets the shared secret as internal token, once, where
/// there is one and it holds no control characters but tabs, and no internal token otherwise.
pub proof fn upstreams_get_the_secret_or_nothing(
    values: Map<Seq<char>, Seq<Seq<u8>>>,
    secret: Seq<char>,
)
    ensures
        ({
            let bytes = encode_utf8(secret);
            let usable = secret.len() > 0 && (forall|i: int|
                0 <= i < bytes.len() ==> #[trigger] bytes[i] == 9 || (32 <= bytes[i] && bytes[i]
                    != 127));
            &&& upstream_values(values, secret).contains_key("x-internal-token"@) <==> usable
            &&& usable ==> upstream_values(values, secret)["x-internal-token"@] == seq![bytes]
        }),
{
}

/// A response header is withheld exactly if it has one of these eight names. Any other reaches the
/// client with all its values, in their order.
pub proof fn response_headers_are_withheld_by_this_list(
    values: Map<Seq<char>, Seq<Seq<u8>>>,
    name: Seq<char>,
)
    ensures
        client_values(values).contains_key(name) <==> values.contains_key(name) && !({
            ||| name == "connection"@
            ||| name == "transfer-encoding"@
            ||| name == "keep-alive"@
            ||| name == "proxy-authenticate"@
            ||| name == "proxy-authorization"@
            ||| name == "te"@
            ||| name == "trailers"@
            ||| name == "upgrade"@
        }),
        client_values(values).contains_key(name) ==> client_values(values)[name] == values[name],
{
}

/// No request is refused for its headers unless it has more than 6553 names, and none with more
/// than that many names that are forwarded is let through.
pub proof fn only_thousands_of_headers_are_too_many(values: Map<Seq<char>, Seq<Seq<u8>>>)
    requires
        values.dom().finite(),
    ensures
        exceeds_headers(values) ==> values.dom().len() > 6553,
        exceeds_headers(values) <==> upstream_values(values, seq![]).dom().len() > 6553,
        (forall|name: Seq<char>| #[trigger]
            values.contains_key(name) ==> "x-forwarded-"@.is_prefix_of(name)) && values.dom().len()
            > 6553 ==> exceeds_headers(values),
{
    vstd::set_lib::lemma_len_subset(allowed(values).dom(), values.dom());
    if forall|name: Seq<char>| #[trigger]
        values.contains_key(name) ==> "x-forwarded-"@.is_prefix_of(name) {
        reveal_strlit("x-forwarded-");
        reveal_strlit("x-internal-token");
        assert forall|name: Seq<char>| #[trigger]
            values.contains_key(name) implies is_forwarded_name(name) by {
            assert(name.subrange(0, 12)[2] == "x-forwarded-"@[2]);
            assert(name[2] != "x-internal-token"@[2]);
        }
        assert(allowed(values).dom() =~= values.dom());
    }
}

/// What a value is read as: its bytes, one character each, where all of them are tabs or visible
/// ASCII. Of several values the first counts.
pub proof fn the_first_value_is_read_as_text(
    values: Map<Seq<char>, Seq<Seq<u8>>>,
    name: Seq<char>,
    text: Seq<char>,
)
    ensures
        first_text(values, name) == Some(text) <==> values.contains_key(name) && values[name].len()
            > 0 && values[name][0].len() == text.len() && (forall|i: int|
            0 <= i < text.len() ==> (#[trigger] text[i]) as int == values[name][0][i] as int && (
            text[i] == '\t' || ' ' <= text[i] <= '~')),
{
    if first_text(values, name) == Some(text) {
        assert forall|i: int| 0 <= i < text.len() implies (#[trigger] text[i]) as int
            == values[name][0][i] as int && (text[i] == '\t' || ' ' <= text[i] <= '~') by {
            assert(is_text_byte(values[name][0][i]));
        }
    }
    if values.contains_key(name) && values[name].len() > 0 && values[name][0].len() == text.len()
        && (forall|i: int|
        0 <= i < text.len() ==> (#[trigger] text[i]) as int == values[name][0][i] as int && (text[i]
            == '\t' || ' ' <= text[i] <= '~')) {
        let bytes = values[name][0];
        assert forall|i: int| 0 <= i < bytes.len() implies is_text_byte(#[trigger] bytes[i]) by {
            assert(text[i] as int == bytes[i] as int);
        }
        assert(ascii_text(bytes) =~= text);
    }
}

/// A header map holds what its entries say.
pub proof fn a_map_holds_its_entries(map: HeaderMap<HeaderValue>, name: Seq<char>)
    ensures
        header_values(map).contains_key(name) <==> exists|i: int|
            0 <= i < header_entries(map).len() && (#[trigger] header_entries(map)[i]).0 == name,
        header_values(map).contains_key(name) ==> header_values(map)[name] == header_entries(
            map,
        ).filter(|entry: (Seq<char>, Seq<u8>)| entry.0 == name).map_values(
            |entry: (Seq<char>, Seq<u8>)| entry.1,
        ),
{
    entries_are_gathered_by_name(header_entries(map), name);
}

/// A name counts as forwarded exactly if a request that carries it alone still does upstream, and
/// as hop-by-hop exactly if a response that carries it alone no longer does for the client.
pub proof fn names_are_judged_alone(name: Seq<char>, value: Seq<u8>)
    ensures
        ({
            let alone = Map::<Seq<char>, Seq<Seq<u8>>>::empty().insert(name, seq![value]);
            &&& is_forwarded_name(name) <==> upstream_values(alone, seq![]).contains_key(name)
            &&& hop_by_hop_names().contains(name) <==> !client_values(alone).contains_key(name)
        }),
{
}

} // verus!
