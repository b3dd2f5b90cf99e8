//! The extractor: locates the embedded payload inside an HTML page, decodes
//! it as JSON, and projects out the tour name and the coordinate track.

use vstd::prelude::*;

use crate::json::JsonValue;
use crate::json::decode_json;
use crate::json::json_decoded;
use crate::json::spec_get;
use crate::json::to_json_value;
use crate::tour::Coordinate;
use crate::tour::CoordView;
use crate::tour::Tour;
use crate::tour::TourView;

verus! {

/// Relies on `String::push`: appends one character at the end.
pub assume_specification[ String::push ](s: &mut String, c: char)
    ensures
        final(s)@ == old(s)@.push(c),
;

/// Why extraction failed; each variant names the stage that rejected the
/// input.
#[derive(Debug, PartialEq, Eq)]
pub enum ExtractError {
    /// No complete `kmtBoot.setProps(...)` invocation occurs in the text.
    PatternNotFound,
    /// The captured payload does not decode as JSON; carries the decoder's
    /// description of the failure.
    MalformedJson(String),
    /// A navigation path into the decoded document is absent or of the
    /// wrong type; carries the name of the missing field.
    MissingField(String),
    /// The coordinate item at this index lacks a required numeric field.
    InvalidCoordinate(usize),
}

/// What extraction yields on a given text: the tour, or the exact failure.
pub enum ExtractOutcome {
    Tour(TourView),
    PatternNotFound,
    MalformedJson,
    MissingField(Seq<char>),
    InvalidCoordinate(int),
}

/// The marker that introduces the embedded payload, opening parenthesis
/// included.
pub open spec fn marker() -> Seq<char> {
    "kmtBoot.setProps("@
}

/// The marker occurs in `s` at position `i`.
pub open spec fn marker_at(s: Seq<char>, i: int) -> bool {
    0 <= i && i + marker().len() <= s.len() && s.subrange(i, i + marker().len() as int)
        == marker()
}

/// The first marker occurrence at or after position `i`.
pub open spec fn find_marker_from(s: Seq<char>, i: int) -> Option<int>
    decreases s.len() - i,
{
    if i < 0 || i >= s.len() || i + marker().len() > s.len() {
        None
    } else if marker_at(s, i) {
        Some(i)
    } else {
        find_marker_from(s, i + 1)
    }
}

/// Scans forward from position `i` for the parenthesis that closes the
/// marker's argument, counting nesting depth and skipping over quoted
/// string contents (a backslash escapes the next character inside a
/// string). Yields the position of the closing parenthesis, or `None` when
/// the text ends before the argument balances.
pub open spec fn scan_payload(s: Seq<char>, i: int, depth: int, in_str: bool, esc: bool) -> Option<
    int,
>
    decreases s.len() - i,
{
    if i < 0 || i >= s.len() {
        None
    } else if in_str {
        if esc {
            scan_payload(s, i + 1, depth, true, false)
        } else if s[i] == '\\' {
            scan_payload(s, i + 1, depth, true, true)
        } else if s[i] == '"' {
            scan_payload(s, i + 1, depth, false, false)
        } else {
            scan_payload(s, i + 1, depth, true, false)
        }
    } else if s[i] == '"' {
        scan_payload(s, i + 1, depth, true, false)
    } else if s[i] == '(' {
        scan_payload(s, i + 1, depth + 1, false, false)
    } else if s[i] == ')' {
        if depth == 1 {
            Some(i)
        } else {
            scan_payload(s, i + 1, depth - 1, false, false)
        }
    } else {
        scan_payload(s, i + 1, depth, false, false)
    }
}

/// The embedded payload of `s`: the balanced argument of the first marker
/// occurrence, or `None` when no complete invocation exists.
pub open spec fn payload_of(s: Seq<char>) -> Option<Seq<char>> {
    match find_marker_from(s, 0) {
        None => None,
        Some(m) => {
            let start = m + marker().len() as int;
            match scan_payload(s, start, 1, false, false) {
                None => None,
                Some(end) => Some(s.subrange(start, end)),
            }
        },
    }
}

/// The payload with each escaped quote `\"` replaced by a literal quote,
/// left to right.
pub open spec fn unescape_quotes(s: Seq<char>) -> Seq<char>
    decreases s.len(),
{
    if s.len() == 0 {
        Seq::empty()
    } else if s.len() >= 2 && s[0] == '\\' && s[1] == '"' {
        seq!['"'] + unescape_quotes(s.skip(2))
    } else {
        seq![s[0]] + unescape_quotes(s.skip(1))
    }
}

/// The payload with one leading and one trailing literal quote stripped,
/// each where present.
pub open spec fn strip_outer_quotes(s: Seq<char>) -> Seq<char> {
    let t = if s.len() >= 1 && s[0] == '"' {
        s.skip(1)
    } else {
        s
    };
    if t.len() >= 1 && t[t.len() - 1] == '"' {
        t.take(t.len() - 1)
    } else {
        t
    }
}

/// The tour object of the decoded document, under `page`, `_embedded`,
/// `tour`.
pub open spec fn tour_node(j: JsonValue) -> Option<JsonValue> {
    match spec_get(j, "page"@) {
        Some(p) => match spec_get(p, "_embedded"@) {
            Some(e) => spec_get(e, "tour"@),
            None => None,
        },
        None => None,
    }
}

/// The tour's name: the text under `name` in the tour object.
pub open spec fn name_of(j: JsonValue) -> Option<Seq<char>> {
    match tour_node(j) {
        Some(t) => match spec_get(t, "name"@) {
            Some(JsonValue::Str(s)) => Some(s@),
            _ => None,
        },
        None => None,
    }
}

/// The coordinate items: the array under `_embedded`, `coordinates`,
/// `items` in the tour object.
pub open spec fn items_of(j: JsonValue) -> Option<Seq<JsonValue>> {
    match tour_node(j) {
        Some(t) => match spec_get(t, "_embedded"@) {
            Some(e) => match spec_get(e, "coordinates"@) {
                Some(c) => match spec_get(c, "items"@) {
                    Some(JsonValue::Arr(v)) => Some(v@),
                    _ => None,
                },
                None => None,
            },
            None => None,
        },
        None => None,
    }
}

/// One coordinate read from one array item: the numeric fields `lat`,
/// `lng` and `alt`, all required.
pub open spec fn coord_of_item(it: JsonValue) -> Option<CoordView> {
    match (spec_get(it, "lat"@), spec_get(it, "lng"@), spec_get(it, "alt"@)) {
        (
            Some(JsonValue::Num(la)),
            Some(JsonValue::Num(lo)),
            Some(JsonValue::Num(al)),
        ) => Some(CoordView { lat: la@, lng: lo@, alt: al@ }),
        _ => None,
    }
}

/// The first item index at or after `i` that yields no coordinate.
pub open spec fn first_invalid_from(items: Seq<JsonValue>, i: int) -> Option<int>
    decreases items.len() - i,
{
    if i < 0 || i >= items.len() {
        None
    } else if coord_of_item(items[i]) is None {
        Some(i)
    } else {
        first_invalid_from(items, i + 1)
    }
}

/// The track read from the items, in array order.
pub open spec fn coords_of(items: Seq<JsonValue>) -> Seq<CoordView> {
    Seq::new(items.len(), |i: int| coord_of_item(items[i]).unwrap())
}

/// What extracting from `html` yields, stage by stage: the first complete
/// marker invocation's balanced argument, unescaped and unquoted, decoded
/// as JSON, navigated to the name and then to the items, each item
/// projected to a coordinate, in order.
pub open spec fn extract_spec(html: Seq<char>) -> ExtractOutcome {
    match payload_of(html) {
        None => ExtractOutcome::PatternNotFound,
        Some(p) => {
            let q = strip_outer_quotes(unescape_quotes(p));
            match json_decoded(q) {
                None => ExtractOutcome::MalformedJson,
                Some(j) => match name_of(j) {
                    None => ExtractOutcome::MissingField("name"@),
                    Some(nm) => match items_of(j) {
                        None => ExtractOutcome::MissingField("coordinates"@),
                        Some(items) => match first_invalid_from(items, 0) {
                            Some(i) => ExtractOutcome::InvalidCoordinate(i),
                            None => ExtractOutcome::Tour(
                                TourView { name: nm, coordinates: coords_of(items) },
                            ),
                        },
                    },
                },
            }
        },
    }
}

/// Finds the first marker occurrence in `html`.
fn find_marker(html: &str) -> (r: Option<usize>)
    ensures
        match r {
            Some(i) => find_marker_from(html@, 0) == Some(i as int),
            None => find_marker_from(html@, 0) is None,
        },
{
    let pat = "kmtBoot.setProps(";
    proof {
        reveal_strlit("kmtBoot.setProps(");
    }
    let pn = pat.unicode_len();
    let n = html.unicode_len();
    if n < pn {
        proof {
            assert(find_marker_from(html@, 0) is None);
        }
        return None;
    }
    let mut i: usize = 0;
    while i <= n - pn
        invariant
            1 <= pn,
            pn == marker().len(),
            pat@ == marker(),
            n == html@.len(),
            pn <= n,
            i <= n - pn + 1,
            find_marker_from(html@, 0) == find_marker_from(html@, i as int),
        decreases n - i,
    {
        let mut k: usize = 0;
        let mut matched: bool = true;
        while k < pn
            invariant
                pn == marker().len(),
                pat@ == marker(),
                n == html@.len(),
                i + pn <= n,
                k <= pn,
                matched ==> forall|t: int| 0 <= t < k ==> html@[i + t] == marker()[t],
                !matched ==> !marker_at(html@, i as int),
            decreases pn - k,
        {
            if html.get_char(i + k) != pat.get_char(k) {
                proof {
                    assert(html@.subrange(i as int, i + pn) != marker()) by {
                        assert(html@.subrange(i as int, i + pn)[k as int] == html@[i + k]);
                    }
                }
                matched = false;
                k = pn;
            } else {
                k = k + 1;
            }
        }
        if matched {
            proof {
                assert(html@.subrange(i as int, i + pn) =~= marker());
                assert(marker_at(html@, i as int));
                assert(find_marker_from(html@, i as int) == Some(i as int));
            }
            return Some(i);
        }
        proof {
            assert(find_marker_from(html@, i as int) == find_marker_from(html@, i + 1));
        }
        i = i + 1;
    }
    proof {
        assert(i + pn > n);
        assert(find_marker_from(html@, i as int) is None);
    }
    None
}

/// Scans for the parenthesis that closes the marker's argument, starting
/// at `start` with one parenthesis already open.
fn scan_balanced(html: &str, start: usize) -> (r: Option<usize>)
    requires
        start <= html@.len(),
    ensures
        match r {
            Some(e) => scan_payload(html@, start as int, 1, false, false) == Some(e as int)
                && start <= e < html@.len(),
            None => scan_payload(html@, start as int, 1, false, false) is None,
        },
{
    let n = html.unicode_len();
    let mut i: usize = start;
    let mut depth: u128 = 1;
    let mut in_str: bool = false;
    let mut esc: bool = false;
    while i < n
        invariant
            n == html@.len(),
            start <= i <= n,
            1 <= depth <= i - start + 1,
            esc ==> in_str,
            scan_payload(html@, start as int, 1, false, false) == scan_payload(
                html@,
                i as int,
                depth as int,
                in_str,
                esc,
            ),
        decreases n - i,
    {
        let c = html.get_char(i);
        if in_str {
            if esc {
                esc = false;
            } else if c == '\\' {
                esc = true;
            } else if c == '"' {
                in_str = false;
            }
        } else if c == '"' {
            in_str = true;
        } else if c == '(' {
            depth = depth + 1;
        } else if c == ')' {
            if depth == 1 {
                return Some(i);
            }
            depth = depth - 1;
        }
        i = i + 1;
    }
    None
}

proof fn lemma_find_marker_props(s: Seq<char>, i: int, j: int)
    requires
        find_marker_from(s, i) == Some(j),
    ensures
        i <= j,
        marker_at(s, j),
    decreases s.len() - i,
{
    if !(i < 0 || i >= s.len() || i + marker().len() > s.len()) && !marker_at(s, i) {
        lemma_find_marker_props(s, i + 1, j);
    }
}

/// Captures the embedded payload of `html`, as `payload_of` reads it.
fn find_payload(html: &str) -> (r: Option<String>)
    ensures
        match r {
            Some(p) => payload_of(html@) == Some(p@),
            None => payload_of(html@) is None,
        },
{
    let m = match find_marker(html) {
        None => {
            return None;
        },
        Some(m) => m,
    };
    proof {
        lemma_find_marker_props(html@, 0, m as int);
    }
    let pat = "kmtBoot.setProps(";
    let pn = pat.unicode_len();
    let n = html.unicode_len();
    proof {
        assert(m + pn <= n);
    }
    let start = m + pn;
    let end = match scan_balanced(html, start) {
        None => {
            return None;
        },
        Some(e) => e,
    };
    let captured = html.substring_char(start, end);
    Some(captured.to_owned())
}

/// Replaces each escaped quote in `s` with a literal quote, left to right.
fn unescape_payload(s: &str) -> (r: String)
    ensures
        r@ == unescape_quotes(s@),
{
    let n = s.unicode_len();
    let mut out = String::new();
    let mut i: usize = 0;
    proof {
        assert(s@.skip(0) =~= s@);
        assert(out@ + unescape_quotes(s@) =~= unescape_quotes(s@));
    }
    while i < n
        invariant
            n == s@.len(),
            i <= n,
            out@ + unescape_quotes(s@.skip(i as int)) == unescape_quotes(s@),
        decreases n - i,
    {
        let c = s.get_char(i);
        let ghost out0 = out@;
        if c == '\\' && i + 1 < n && s.get_char(i + 1) == '"' {
            out.push('"');
            proof {
                assert(s@.skip(i as int).len() >= 2);
                assert(s@.skip(i as int)[0] == '\\');
                assert(s@.skip(i as int)[1] == '"');
                assert(s@.skip(i as int).skip(2) =~= s@.skip(i + 2));
                assert(unescape_quotes(s@.skip(i as int)) == seq!['"'] + unescape_quotes(
                    s@.skip(i + 2),
                ));
                assert(out@ + unescape_quotes(s@.skip(i + 2)) =~= out0 + unescape_quotes(
                    s@.skip(i as int),
                ));
            }
            i = i + 2;
        } else {
            out.push(c);
            proof {
                assert(s@.skip(i as int)[0] == c);
                assert(s@.skip(i as int).skip(1) =~= s@.skip(i + 1));
                if s@.skip(i as int).len() >= 2 && s@.skip(i as int)[0] == '\\' && s@.skip(
                    i as int,
                )[1] == '"' {
                    assert(s@[i + 1] == '"');
                    assert(false);
                }
                assert(unescape_quotes(s@.skip(i as int)) == seq![c] + unescape_quotes(
                    s@.skip(i + 1),
                ));
                assert(out@ + unescape_quotes(s@.skip(i + 1)) =~= out0 + unescape_quotes(
                    s@.skip(i as int),
                ));
            }
            i = i + 1;
        }
    }
    proof {
        assert(s@.skip(n as int) =~= Seq::<char>::empty());
        assert(out@ + unescape_quotes(s@.skip(n as int)) =~= out@);
    }
    out
}

/// Strips one leading and one trailing literal quote, each where present.
fn strip_quotes<'a>(s: &'a str) -> (r: &'a str)
    ensures
        r@ == strip_outer_quotes(s@),
{
    let n = s.unicode_len();
    let from: usize = if n >= 1 && s.get_char(0) == '"' {
        1
    } else {
        0
    };
    let to: usize = if n > from && s.get_char(n - 1) == '"' {
        n - 1
    } else {
        n
    };
    let r = s.substring_char(from, to);
    proof {
        let t = if s@.len() >= 1 && s@[0] == '"' {
            s@.skip(1)
        } else {
            s@
        };
        assert(t =~= s@.subrange(from as int, n as int));
        if t.len() >= 1 && t[t.len() - 1] == '"' {
            assert(t[t.len() - 1] == s@[n - 1]);
            assert(strip_outer_quotes(s@) =~= s@.subrange(from as int, to as int));
        } else {
            assert(strip_outer_quotes(s@) =~= s@.subrange(from as int, to as int));
        }
    }
    r
}

/// Extracts the tour from an HTML page: the first complete
/// `kmtBoot.setProps(...)` invocation's balanced argument, unescaped and
/// unquoted, decoded as JSON and navigated to the name and the track.
/// Succeeds and fails exactly as `extract_spec` says.
#[verifier::loop_isolation(false)]
pub fn extract(html: &str) -> (r: Result<Tour, ExtractError>)
    ensures
        match r {
            Ok(t) => extract_spec(html@) == ExtractOutcome::Tour(t@),
            Err(e) => match e {
                ExtractError::PatternNotFound => extract_spec(html@)
                    == ExtractOutcome::PatternNotFound,
                ExtractError::MalformedJson(_) => extract_spec(html@)
                    == ExtractOutcome::MalformedJson,
                ExtractError::MissingField(f) => extract_spec(html@)
                    == ExtractOutcome::MissingField(f@),
                ExtractError::InvalidCoordinate(i) => extract_spec(html@)
                    == ExtractOutcome::InvalidCoordinate(i as int),
            },
        },
{
    let payload = match find_payload(html) {
        None => {
            return Err(ExtractError::PatternNotFound);
        },
        Some(p) => p,
    };
    let unescaped = unescape_payload(payload.as_str());
    let stripped = strip_quotes(unescaped.as_str());
    let value = match decode_json(stripped) {
        Err(m) => {
            return Err(ExtractError::MalformedJson(m));
        },
        Ok(v) => v,
    };
    let j = to_json_value(value);
    assert(json_decoded(strip_outer_quotes(unescape_quotes(payload@))) == Some(j));
    let page = match j.get("page") {
        Some(v) => v,
        None => {
            return Err(ExtractError::MissingField("name".to_owned()));
        },
    };
    let emb = match page.get("_embedded") {
        Some(v) => v,
        None => {
            return Err(ExtractError::MissingField("name".to_owned()));
        },
    };
    let tnode = match emb.get("tour") {
        Some(v) => v,
        None => {
            return Err(ExtractError::MissingField("name".to_owned()));
        },
    };
    let name = match tnode.get("name") {
        Some(JsonValue::Str(s)) => s,
        _ => {
            return Err(ExtractError::MissingField("name".to_owned()));
        },
    };
    let temb = match tnode.get("_embedded") {
        Some(v) => v,
        None => {
            return Err(ExtractError::MissingField("coordinates".to_owned()));
        },
    };
    let cnode = match temb.get("coordinates") {
        Some(v) => v,
        None => {
            return Err(ExtractError::MissingField("coordinates".to_owned()));
        },
    };
    let items = match cnode.get("items") {
        Some(JsonValue::Arr(v)) => v,
        _ => {
            return Err(ExtractError::MissingField("coordinates".to_owned()));
        },
    };
    let mut coords: Vec<Coordinate> = Vec::new();
    let ni = items.len();
    for idx in 0..ni
        invariant
            first_invalid_from(items@, 0) == first_invalid_from(items@, idx as int),
            coords@.len() == idx,
            forall|t: int| 0 <= t < idx ==> coord_of_item(items@[t]) is Some,
            forall|t: int|
                0 <= t < idx ==> coords@[t]@ == coord_of_item(items@[t]).unwrap(),
    {
        let it = &items[idx];
        let la = match it.get("lat") {
            Some(JsonValue::Num(s)) => s,
            _ => {
                return Err(ExtractError::InvalidCoordinate(idx));
            },
        };
        let lo = match it.get("lng") {
            Some(JsonValue::Num(s)) => s,
            _ => {
                return Err(ExtractError::InvalidCoordinate(idx));
            },
        };
        let al = match it.get("alt") {
            Some(JsonValue::Num(s)) => s,
            _ => {
                return Err(ExtractError::InvalidCoordinate(idx));
            },
        };
        proof {
            assert(coord_of_item(items@[idx as int]) == Some(
                CoordView { lat: la@, lng: lo@, alt: al@ },
            ));
            assert(first_invalid_from(items@, idx as int) == first_invalid_from(
                items@,
                idx + 1,
            ));
        }
        coords.push(Coordinate { lat: la.clone(), lng: lo.clone(), alt: al.clone() });
    }
    proof {
        assert(first_invalid_from(items@, ni as int) is None);
    }
    let tour = Tour { name: name.clone(), coordinates: coords };
    proof {
        assert(tour@.coordinates =~= coords_of(items@));
        assert(extract_spec(html@) == ExtractOutcome::Tour(tour@));
    }
    Ok(tour)
}

} // verus!
