//! Decisions of the forwarding path: where a request goes, which headers pass,
//! how `X-Forwarded-For` grows, and which error a stopping listener reports.

use vstd::prelude::*;
use vstd::string::StringSliceAdditionalSpecFns;

use crate::text::{
    ascii_lowercase, chars_equal, chars_of, is_white_space, lowercase_chars, str_equal,
    string_from_chars, trim_end, trim_start,
    strip_leading, strip_leading_chars, strip_trailing, strip_trailing_chars, trim, trim_chars,
};
use crate::upstream_url::{
    char_count, edit_fits, opt_view, path_of, url_edit_fits, url_path, url_set_path, url_set_query,
    with_path, with_query,
};

verus! {

/// The path sent upstream: the base path without trailing slashes, one slash, and
/// the request path without leading slashes.
pub open spec fn merge_path(base_path: Seq<char>, request_path: Seq<char>) -> Seq<char> {
    strip_trailing(base_path, '/') + seq!['/'] + strip_leading(request_path, '/')
}

/// Why no target URL was built.
#[derive(Clone, Copy, Debug, PartialEq, Eq, Structural)]
pub enum TargetUrlError {
    /// The `url` crate could not read the upstream base URL back.
    UnreadableBase,
    /// The URL and the text set into it are beyond what the `url` crate is given
    /// to edit (`url_edit_fits`).
    TooLong,
}

/// The target URL for a request: the upstream base with its path replaced by the
/// merged path and its query replaced by the request's query.
pub open spec fn target_url(base: Seq<char>, request_path: Seq<char>, query: Option<Seq<char>>) -> Result<
    Seq<char>,
    TargetUrlError,
> {
    match url_path(base) {
        None => Err(TargetUrlError::UnreadableBase),
        Some(base_path) => {
            let merged = merge_path(base_path, request_path);
            if !url_edit_fits(base, merged.len() as int) {
                Err(TargetUrlError::TooLong)
            } else {
                match url_set_path(base, merged) {
                    None => Err(TargetUrlError::UnreadableBase),
                    Some(with_path) => {
                        let query_len = match query {
                            Some(q) => q.len() as int,
                            None => 0,
                        };
                        if !url_edit_fits(with_path, query_len) {
                            Err(TargetUrlError::TooLong)
                        } else {
                            match url_set_query(with_path, query) {
                                None => Err(TargetUrlError::UnreadableBase),
                                Some(t) => Ok(t),
                            }
                        }
                    },
                }
            }
        },
    }
}

/// Joins the upstream base path and the request path.
pub fn merge_paths(base_path: &str, request_path: &str) -> (r: String)
    ensures
        r@ == merge_path(base_path@, request_path@),
{
    let mut merged = strip_trailing_chars(&chars_of(base_path), '/');
    merged.push('/');
    let mut tail = strip_leading_chars(&chars_of(request_path), '/');
    merged.append(&mut tail);
    string_from_chars(&merged)
}

/// Builds the upstream URL for a request with the given path and query.
pub fn build_target_url(base: &str, request_path: &str, query: Option<&str>) -> (r: Result<
    String,
    TargetUrlError,
>)
    ensures
        r matches Ok(t) ==> target_url(base@, request_path@, opt_view(query)) == Ok::<
            Seq<char>,
            TargetUrlError,
        >(t@),
        r matches Err(e) ==> target_url(base@, request_path@, opt_view(query)) == Err::<
            Seq<char>,
            TargetUrlError,
        >(e),
{
    let base_path = match path_of(base) {
        Some(p) => p,
        None => return Err(TargetUrlError::UnreadableBase),
    };
    let merged = merge_paths(base_path.as_str(), request_path);
    if !edit_fits(base, char_count(merged.as_str())) {
        return Err(TargetUrlError::TooLong);
    }
    let with_path = match with_path(base, merged.as_str()) {
        Some(h) => h,
        None => return Err(TargetUrlError::UnreadableBase),
    };
    let query_len = match query {
        Some(q) => char_count(q),
        None => 0,
    };
    if !edit_fits(with_path.as_str(), query_len) {
        return Err(TargetUrlError::TooLong);
    }
    match with_query(with_path.as_str(), query) {
        Some(h) => Ok(h),
        None => Err(TargetUrlError::UnreadableBase),
    }
}

/// The `X-Forwarded-For` value sent upstream, given the incoming one (where it is
/// readable as text) and the client's address.
pub open spec fn forwarded_for(existing: Option<Seq<char>>, peer_ip: Seq<char>) -> Seq<char> {
    match existing {
        Some(value) => if trim(value).len() > 0 {
            value + ", "@ + peer_ip
        } else {
            peer_ip
        },
        None => peer_ip,
    }
}

/// A byte that `HeaderValue::to_str` reads as text: a tab or visible ASCII.
pub open spec fn is_visible_ascii(b: u8) -> bool {
    (32 <= b && b < 127) || b == 9
}

/// A header value read as text, as `HeaderValue::to_str` does: the characters of
/// its bytes where every byte is visible ASCII, else nothing.
pub open spec fn header_text(value: Seq<u8>) -> Option<Seq<char>> {
    if forall|i: int| 0 <= i < value.len() ==> is_visible_ascii(#[trigger] value[i]) {
        Some(value.map_values(|b: u8| b as char))
    } else {
        None
    }
}

/// An optional header value read as text.
pub open spec fn opt_header_text(value: Option<Seq<u8>>) -> Option<Seq<char>> {
    match value {
        Some(v) => header_text(v),
        None => None,
    }
}

/// The view of an optional byte slice.
pub open spec fn opt_bytes(value: Option<&[u8]>) -> Option<Seq<u8>> {
    match value {
        Some(v) => Some(v@),
        None => None,
    }
}

/// Reads a header value's bytes as text where they are all visible ASCII.
pub fn header_value_text(value: &[u8]) -> (r: Option<Vec<char>>)
    ensures
        r matches Some(t) ==> header_text(value@) == Some(t@),
        r is None ==> header_text(value@) is None,
{
    let mut out: Vec<char> = Vec::new();
    let mut i: usize = 0;
    while i < value.len()
        invariant
            i <= value@.len(),
            forall|k: int| 0 <= k < i ==> is_visible_ascii(#[trigger] value@[k]),
            out@ == value@.take(i as int).map_values(|b: u8| b as char),
        decreases value.len() - i,
    {
        let b = value[i];
        if !((32 <= b && b < 127) || b == 9) {
            return None;
        }
        out.push(b as char);
        i = i + 1;
        assert(out@ =~= value@.take(i as int).map_values(|b: u8| b as char));
    }
    assert(value@.take(value@.len() as int) =~= value@);
    Some(out)
}

/// Extends the `X-Forwarded-For` chain with the client's address, given the raw
/// bytes of the incoming header where there is one.
pub fn append_forwarded_for(existing: Option<&[u8]>, peer_ip: String) -> (r: String)
    ensures
        r@ == forwarded_for(opt_header_text(opt_bytes(existing)), peer_ip@),
{
    let text = match existing {
        Some(bytes) => header_value_text(bytes),
        None => None,
    };
    match text {
        Some(value) => {
            let trimmed = trim_chars(&value);
            if trimmed.len() > 0 {
                let mut out = value;
                let mut sep: Vec<char> = Vec::new();
                sep.push(',');
                sep.push(' ');
                out.append(&mut sep);
                let mut peer = chars_of(peer_ip.as_str());
                out.append(&mut peer);
                proof {
                    reveal_strlit(", ");
                }
                string_from_chars(&out)
            } else {
                peer_ip
            }
        },
        None => peer_ip,
    }
}

/// The hop-by-hop header names, in lower case.
pub open spec fn is_hop_by_hop_name(lower: Seq<char>) -> bool {
    ||| lower == "connection"@
    ||| lower == "keep-alive"@
    ||| lower == "proxy-authenticate"@
    ||| lower == "proxy-authorization"@
    ||| lower == "te"@
    ||| lower == "trailer"@
    ||| lower == "transfer-encoding"@
    ||| lower == "upgrade"@
}

/// Whether a header belongs to one connection only, ignoring ASCII case.
pub fn is_hop_by_hop_header(name: &str) -> (r: bool)
    ensures
        r == is_hop_by_hop_name(ascii_lowercase(name@)),
{
    let lower = lowercase_chars(&chars_of(name));
    chars_equal(&lower, &chars_of("connection")) || chars_equal(&lower, &chars_of("keep-alive"))
        || chars_equal(&lower, &chars_of("proxy-authenticate")) || chars_equal(
        &lower,
        &chars_of("proxy-authorization"),
    ) || chars_equal(&lower, &chars_of("te")) || chars_equal(&lower, &chars_of("trailer"))
        || chars_equal(&lower, &chars_of("transfer-encoding")) || chars_equal(
        &lower,
        &chars_of("upgrade"),
    )
}

/// A request header of this name is copied upstream.
pub open spec fn forwards_request(name: Seq<char>) -> bool {
    !is_hop_by_hop_name(ascii_lowercase(name)) && name != "host"@
}

/// A response header of this name is copied back to the client.
pub open spec fn forwards_response(name: Seq<char>) -> bool {
    !is_hop_by_hop_name(ascii_lowercase(name)) && name != "connection"@
}

/// Whether a request header, named as the `http` crate names it (lower case),
/// is copied upstream; `Host` is replaced, so it is not copied.
pub fn forward_request_header(name: &str) -> (r: bool)
    ensures
        r == forwards_request(name@),
{
    !is_hop_by_hop_header(name) && !str_equal(name, "host")
}

/// Whether a response header, named as the `http` crate names it (lower case),
/// is copied back to the client.
pub fn forward_response_header(name: &str) -> (r: bool)
    ensures
        r == forwards_response(name@),
{
    !is_hop_by_hop_header(name) && !str_equal(name, "connection")
}

/// One step of draining the listener tasks: the first error seen is kept.
pub open spec fn drain<E>(first: Option<E>, outcome: Result<(), E>) -> Option<E> {
    match first {
        Some(e) => Some(e),
        None => match outcome {
            Ok(()) => None,
            Err(e) => Some(e),
        },
    }
}

/// Records the outcome of one finished listener task.
pub fn drain_step<E>(first: Option<E>, outcome: Result<(), E>) -> (r: Option<E>)
    ensures
        r == drain(first, outcome),
{
    match first {
        Some(e) => Some(e),
        None => match outcome {
            Ok(()) => None,
            Err(e) => Some(e),
        },
    }
}

/// Why serving stopped when the first listener task ended on its own.
#[derive(Debug)]
pub enum ExitCause<E> {
    /// A listener returned without an error.
    Unexpected,
    /// A listener failed with this error.
    Failed(E),
    /// No listener task was running.
    NoTasks,
}

/// Classifies the first listener task to end.
pub fn first_exit_cause<E>(first: Option<Result<(), E>>) -> (r: ExitCause<E>)
    ensures
        first matches Some(Ok(())) ==> r is Unexpected,
        first matches Some(Err(e)) ==> r == ExitCause::Failed(e),
        first is None ==> r is NoTasks,
{
    match first {
        Some(Ok(())) => ExitCause::Unexpected,
        Some(Err(e)) => ExitCause::Failed(e),
        None => ExitCause::NoTasks,
    }
}

} // verus!

verus! {

/// Slashes at the end of the base path or the start of the request path do not
/// change where a request goes.
pub proof fn merge_path_ignores_boundary_slashes(base_path: Seq<char>, request_path: Seq<char>)
    ensures
        merge_path(base_path.push('/'), request_path) == merge_path(base_path, request_path),
        merge_path(base_path, seq!['/'] + request_path) == merge_path(base_path, request_path),
{
    assert(base_path.push('/').drop_last() =~= base_path);
    assert((seq!['/'] + request_path).drop_first() =~= request_path);
}

proof fn lemma_strip_trailing_prefix(s: Seq<char>, c: char)
    ensures
        strip_trailing(s, c).len() <= s.len(),
        forall|i: int| 0 <= i < strip_trailing(s, c).len() ==> #[trigger] strip_trailing(s, c)[i] == s[i],
    decreases s.len(),
{
    if s.len() > 0 && s.last() == c {
        lemma_strip_trailing_prefix(s.drop_last(), c);
    }
}

/// The path sent upstream is absolute whenever the base path is (or is empty),
/// and ends with the request path less its leading slashes.
pub proof fn merged_path_is_absolute(base_path: Seq<char>, request_path: Seq<char>)
    requires
        base_path.len() == 0 || base_path[0] == '/',
    ensures
        merge_path(base_path, request_path).len() > 0,
        merge_path(base_path, request_path)[0] == '/',
        merge_path(base_path, request_path).skip(
            merge_path(base_path, request_path).len() - strip_leading(request_path, '/').len(),
        ) == strip_leading(request_path, '/'),
{
    lemma_strip_trailing_prefix(base_path, '/');
    let m = merge_path(base_path, request_path);
    let t = strip_leading(request_path, '/');
    assert(m.skip(m.len() - t.len()) =~= t);
}

/// The client's address always ends the forwarded chain; a readable, non-blank
/// incoming chain is kept in front of it.
pub proof fn forwarded_for_appends_peer(existing: Option<Seq<char>>, peer_ip: Seq<char>)
    ensures
        forwarded_for(existing, peer_ip).len() >= peer_ip.len(),
        forwarded_for(existing, peer_ip).skip(forwarded_for(existing, peer_ip).len() - peer_ip.len())
            == peer_ip,
        existing matches Some(v) ==> (trim(v).len() > 0 ==> forwarded_for(existing, peer_ip).take(
            v.len() as int,
        ) == v),
{
    let f = forwarded_for(existing, peer_ip);
    assert(f.skip(f.len() - peer_ip.len()) =~= peer_ip);
    if let Some(v) = existing {
        if trim(v).len() > 0 {
            assert(f.take(v.len() as int) =~= v);
        }
    }
}

/// Draining from no error over outcomes in the order they finished.
pub open spec fn drain_all<E>(first: Option<E>, outcomes: Seq<Result<(), E>>) -> Option<E>
    decreases outcomes.len(),
{
    if outcomes.len() == 0 {
        first
    } else {
        drain_all(drain(first, outcomes[0]), outcomes.drop_first())
    }
}

/// The error of the first task, in finishing order, that failed.
pub open spec fn first_error<E>(outcomes: Seq<Result<(), E>>) -> Option<E>
    decreases outcomes.len(),
{
    if outcomes.len() == 0 {
        None
    } else {
        match outcomes[0] {
            Err(e) => Some(e),
            Ok(()) => first_error(outcomes.drop_first()),
        }
    }
}

proof fn lemma_drain_keeps<E>(e: E, outcomes: Seq<Result<(), E>>)
    ensures
        drain_all(Some(e), outcomes) == Some(e),
    decreases outcomes.len(),
{
    if outcomes.len() > 0 {
        lemma_drain_keeps(e, outcomes.drop_first());
    }
}

/// Draining every listener task reports the first failure in finishing order, and
/// nothing when all ended cleanly.
pub proof fn drain_reports_first_error<E>(outcomes: Seq<Result<(), E>>)
    ensures
        drain_all(None, outcomes) == first_error(outcomes),
    decreases outcomes.len(),
{
    if outcomes.len() > 0 {
        match outcomes[0] {
            Err(e) => lemma_drain_keeps(e, outcomes.drop_first()),
            Ok(()) => drain_reports_first_error(outcomes.drop_first()),
        }
    }
}

} // verus!

verus! {

/// A header name is classified the same whether or not it was lower-cased first.
pub proof fn hop_by_hop_ignores_lowercasing(name: Seq<char>)
    ensures
        is_hop_by_hop_name(ascii_lowercase(ascii_lowercase(name))) == is_hop_by_hop_name(
            ascii_lowercase(name),
        ),
{
    crate::text::ascii_lowercase_idempotent(name);
}

} // verus!

verus! {

/// A byte that an HTTP header value may hold: a tab, or any byte from 32 on but DEL.
pub open spec fn is_header_value_byte(b: u8) -> bool {
    (b >= 32 && b != 127) || b == 9
}

/// Whether `value` can be sent as a header value (such as the configured `Host`
/// header): every byte of its UTF-8 encoding is a header-value byte.
pub fn is_valid_header_value(value: &str) -> (r: bool)
    ensures
        r == forall|i: int|
            0 <= i < value.spec_bytes().len() ==> is_header_value_byte(
                #[trigger] value.spec_bytes()[i],
            ),
{
    let bytes = value.as_bytes();
    let mut i: usize = 0;
    while i < bytes.len()
        invariant
            i <= bytes@.len(),
            bytes@ == value.spec_bytes(),
            forall|k: int| 0 <= k < i ==> is_header_value_byte(#[trigger] bytes@[k]),
        decreases bytes.len() - i,
    {
        let b = bytes[i];
        if !((b >= 32 && b != 127) || b == 9) {
            return false;
        }
        i = i + 1;
    }
    true
}

} // verus!

verus! {

/// An incoming chain with a byte that is not visible ASCII (nor a tab) is not
/// read as text, so only the client's address is sent.
pub proof fn unreadable_chain_is_dropped(value: Seq<u8>, peer_ip: Seq<char>, k: int)
    requires
        0 <= k < value.len(),
        !is_visible_ascii(value[k]),
    ensures
        forwarded_for(opt_header_text(Some(value)), peer_ip) == peer_ip,
{
}

} // verus!

verus! {

/// With no slash at the end of the base path and none at the start of the request
/// path, the path sent upstream is the whole base path, one slash, and the whole
/// request path, however many segments either holds.
pub proof fn merge_path_keeps_both_paths(base_path: Seq<char>, request_path: Seq<char>)
    requires
        base_path.len() == 0 || base_path.last() != '/',
        request_path.len() == 0 || request_path[0] != '/',
    ensures
        merge_path(base_path, request_path) == base_path + seq!['/'] + request_path,
{
}

/// Whenever the base URL reads and the edits fit, the target is the base URL with
/// its path set to the whole base path joined to the request path, and then its
/// query set to the request's query.
pub proof fn target_is_base_with_joined_path(
    base: Seq<char>,
    request_path: Seq<char>,
    query: Option<Seq<char>>,
    base_path: Seq<char>,
    with_path: Seq<char>,
    target: Seq<char>,
)
    requires
        url_path(base) == Some(base_path),
        url_edit_fits(base, merge_path(base_path, request_path).len() as int),
        url_set_path(base, merge_path(base_path, request_path)) == Some(with_path),
        url_edit_fits(with_path, (match query {
            Some(q) => q.len() as int,
            None => 0,
        })),
        url_set_query(with_path, query) == Some(target),
    ensures
        target_url(base, request_path, query) == Ok::<Seq<char>, TargetUrlError>(target),
{
}

/// The eight hop-by-hop names.
pub open spec fn is_listed_hop_by_hop(lower: Seq<char>) -> bool {
    lower == "connection"@ || lower == "keep-alive"@ || lower == "proxy-authenticate"@ || lower
        == "proxy-authorization"@ || lower == "te"@ || lower == "trailer"@ || lower
        == "transfer-encoding"@ || lower == "upgrade"@
}

/// A header is hop-by-hop exactly when its ASCII lower-case form is one of
/// connection, keep-alive, proxy-authenticate, proxy-authorization, te, trailer,
/// transfer-encoding, upgrade; so a request header of any other name but `host`
/// is forwarded, and a response header of any other name is sent back.
pub proof fn only_the_eight_are_hop_by_hop(name: Seq<char>)
    ensures
        is_hop_by_hop_name(ascii_lowercase(name)) == is_listed_hop_by_hop(ascii_lowercase(name)),
        !is_listed_hop_by_hop(ascii_lowercase(name)) && name != "host"@ ==> !is_hop_by_hop_name(
            ascii_lowercase(name),
        ) && name != "host"@,
{
}

/// Names beginning with `x-` (such as `x-api-key` or `x-forwarded-for`) are never
/// hop-by-hop, so such request headers other than `host` always go upstream.
pub proof fn extension_headers_are_forwarded(lower: Seq<char>)
    requires
        lower.len() >= 2,
        lower[0] == 'x',
        lower[1] == '-',
    ensures
        !is_hop_by_hop_name(lower),
{
    reveal_strlit("connection");
    reveal_strlit("keep-alive");
    reveal_strlit("proxy-authenticate");
    reveal_strlit("proxy-authorization");
    reveal_strlit("te");
    reveal_strlit("trailer");
    reveal_strlit("transfer-encoding");
    reveal_strlit("upgrade");
}

/// A header value is read as text exactly when each byte is a tab or lies in
/// 32..=126; the text then has one character per byte, of the byte's code.
pub proof fn header_text_reads_visible_ascii(value: Seq<u8>)
    ensures
        header_text(value) is Some <==> (forall|i: int|
            0 <= i < value.len() ==> (value[i] == 9 || (32 <= #[trigger] value[i] && value[i] <= 126))),
        header_text(value) matches Some(t) ==> t.len() == value.len() && forall|i: int|
            0 <= i < value.len() ==> (#[trigger] t[i]) as int == value[i] as int,
{
    if header_text(value) is Some {
        let t = header_text(value)->0;
        assert forall|i: int| 0 <= i < value.len() implies (#[trigger] t[i]) as int
            == value[i] as int by {
            assert(t[i] == value[i] as char);
        }
    }
}

/// A readable, non-blank incoming chain `v` becomes exactly `v, peer`.
pub proof fn readable_chain_is_extended(value: Seq<u8>, peer_ip: Seq<char>)
    requires
        forall|i: int| 0 <= i < value.len() ==> (value[i] == 9 || (32 <= #[trigger] value[i] && value[i] <= 126)),
        exists|i: int| 0 <= i < value.len() && #[trigger] value[i] != 9 && value[i] != 32,
    ensures
        header_text(value) is Some,
        forwarded_for(opt_header_text(Some(value)), peer_ip) == header_text(value)->0 + ", "@
            + peer_ip,
{
    header_text_reads_visible_ascii(value);
    let t = header_text(value)->0;
    let k = choose|i: int| 0 <= i < value.len() && #[trigger] value[i] != 9 && value[i] != 32;
    assert(t[k] as int == value[k] as int);
    lemma_trim_keeps_non_white(t, k);
}

proof fn lemma_trim_keeps_non_white(t: Seq<char>, k: int)
    requires
        0 <= k < t.len(),
        !is_white_space(t[k]),
    ensures
        trim(t).len() > 0,
{
    lemma_trim_start_keeps(t, k);
    let s = trim_start(t);
    let j = k - (t.len() - s.len());
    lemma_trim_end_keeps(s, j);
}

proof fn lemma_trim_start_keeps(t: Seq<char>, k: int)
    requires
        0 <= k < t.len(),
        !is_white_space(t[k]),
    ensures
        trim_start(t).len() >= t.len() - k,
        trim_start(t).len() <= t.len(),
        trim_start(t) == t.skip(t.len() - trim_start(t).len()),
    decreases t.len(),
{
    if t.len() > 0 && is_white_space(t[0]) {
        lemma_trim_start_keeps(t.drop_first(), k - 1);
        let s = trim_start(t.drop_first());
        assert(t.drop_first().skip(t.drop_first().len() - s.len()) =~= t.skip(t.len() - s.len()));
    } else {
        assert(t.skip(0) =~= t);
    }
}

proof fn lemma_trim_end_keeps(s: Seq<char>, j: int)
    requires
        0 <= j < s.len(),
        !is_white_space(s[j]),
    ensures
        trim_end(s).len() > j,
    decreases s.len(),
{
    if s.len() > 0 && is_white_space(s.last()) {
        lemma_trim_end_keeps(s.drop_last(), j);
    }
}

/// A byte may stand in a header value exactly when it is a tab or from 32 on, DEL
/// (127) excepted; in particular every byte of an ASCII host name (letters, digits,
/// `-`, `.`) may, and a string that reads as header text is a valid header value.
pub proof fn header_value_bytes(b: u8, value: Seq<u8>)
    ensures
        is_header_value_byte(b) <==> (b == 9 || (b >= 32 && b != 127)),
        (('a' as u8 <= b && b <= 'z' as u8) || ('A' as u8 <= b && b <= 'Z' as u8) || ('0' as u8 <= b
            && b <= '9' as u8) || b == '-' as u8 || b == '.' as u8) ==> is_header_value_byte(b),
        header_text(value) is Some ==> forall|i: int|
            0 <= i < value.len() ==> is_header_value_byte(#[trigger] value[i]),
{
    if header_text(value) is Some {
        assert forall|i: int| 0 <= i < value.len() implies is_header_value_byte(
            #[trigger] value[i],
        ) by {
            assert(is_visible_ascii(value[i]));
        }
    }
}

} // verus!

verus! {

/// Request headers go upstream exactly when their name is not `host` and its
/// lower-case form is none of the eight hop-by-hop names; response headers come
/// back exactly when their name is not `connection` and likewise not hop-by-hop.
pub proof fn forwarded_headers_are_all_but_hop_by_hop(name: Seq<char>)
    ensures
        forwards_request(name) <==> (!is_listed_hop_by_hop(ascii_lowercase(name)) && name
            != "host"@),
        forwards_response(name) <==> (!is_listed_hop_by_hop(ascii_lowercase(name)) && name
            != "connection"@),
{
}

/// No target is built from a base URL the `url` crate cannot read, and edits that
/// do not fit are refused as too long rather than made.
pub proof fn target_url_errors(base: Seq<char>, request_path: Seq<char>, query: Option<Seq<char>>)
    ensures
        url_path(base) is None ==> target_url(base, request_path, query) == Err::<
            Seq<char>,
            TargetUrlError,
        >(TargetUrlError::UnreadableBase),
        url_path(base) matches Some(bp) ==> (!url_edit_fits(
            base,
            merge_path(bp, request_path).len() as int,
        ) ==> target_url(base, request_path, query) == Err::<Seq<char>, TargetUrlError>(
            TargetUrlError::TooLong,
        )),
{
}

proof fn lemma_trim_start_all_white(t: Seq<char>)
    requires
        forall|i: int| 0 <= i < t.len() ==> is_white_space(#[trigger] t[i]),
    ensures
        trim_start(t).len() == 0,
    decreases t.len(),
{
    if t.len() > 0 {
        lemma_trim_start_all_white(t.drop_first());
    }
}

/// With no incoming chain, or one holding only spaces and tabs, the client's
/// address alone is sent.
pub proof fn blank_or_missing_chain_is_replaced(value: Seq<u8>, peer_ip: Seq<char>)
    requires
        forall|i: int| 0 <= i < value.len() ==> (#[trigger] value[i] == 9 || value[i] == 32),
    ensures
        forwarded_for(opt_header_text(Some(value)), peer_ip) == peer_ip,
        forwarded_for(opt_header_text(None), peer_ip) == peer_ip,
{
    header_text_reads_visible_ascii(value);
    let t = header_text(value)->0;
    assert forall|i: int| 0 <= i < t.len() implies is_white_space(#[trigger] t[i]) by {
        assert(t[i] as int == value[i] as int);
    }
    lemma_trim_start_all_white(t);
    assert(trim(t) == trim_end(trim_start(t)));
}

} // verus!
