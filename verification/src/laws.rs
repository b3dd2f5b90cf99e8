//! Laws of the pipeline, stated over the spec functions that the public
//! contracts use and proved once for all inputs.

use vstd::prelude::*;

use crate::extract::ExtractOutcome;
use crate::extract::coord_of_item;
use crate::extract::extract_spec;
use crate::extract::items_of;
use crate::extract::marker;
use crate::extract::marker_at;
use crate::extract::find_marker_from;
use crate::extract::payload_of;
use crate::extract::strip_outer_quotes;
use crate::extract::unescape_quotes;
use crate::gpx::gpx_footer;
use crate::gpx::gpx_header;
use crate::gpx::gpx_middle;
use crate::gpx::gpx_spec;
use crate::gpx::trkpt_xml;
use crate::gpx::trkpts_xml;
use crate::gpx::xml_escape;
use crate::gpx::xml_escape_char;
use crate::json::json_decoded;
use crate::tour::CoordView;
use crate::tour::TourView;

verus! {

/// The `trkpt` fragments of a track: one per coordinate, in track order.
pub open spec fn trkpt_frags(coords: Seq<CoordView>) -> Seq<Seq<char>> {
    Seq::new(coords.len(), |i: int| trkpt_xml(coords[i]))
}

proof fn lemma_trkpts_is_flatten(coords: Seq<CoordView>)
    ensures
        trkpts_xml(coords) == trkpt_frags(coords).flatten(),
    decreases coords.len(),
{
    if coords.len() == 0 {
        assert(trkpt_frags(coords) =~= Seq::<Seq<char>>::empty());
        assert(Seq::<Seq<char>>::empty().flatten() =~= Seq::<char>::empty());
        assert(trkpts_xml(coords) =~= Seq::<char>::empty());
    } else {
        lemma_trkpts_is_flatten(coords.skip(1));
        assert(trkpt_frags(coords).drop_first() =~= trkpt_frags(coords.skip(1)));
        assert(trkpt_frags(coords).first() == trkpt_xml(coords[0]));
        assert(trkpt_frags(coords).flatten() == trkpt_xml(coords[0]) + trkpt_frags(
            coords.skip(1),
        ).flatten());
    }
}

/// A tour extracted from a page holds exactly as
/// many coordinates as the source array has items, each read from the item
/// at its own index, and the built document renders exactly one `trkpt`
/// fragment per coordinate, in the same order.
pub proof fn lemma_round_trip_ordering(html: Seq<char>, t: TourView)
    requires
        extract_spec(html) == ExtractOutcome::Tour(t),
    ensures
        ({
            let p = payload_of(html).unwrap();
            let j = json_decoded(strip_outer_quotes(unescape_quotes(p))).unwrap();
            let items = items_of(j).unwrap();
            &&& t.coordinates.len() == items.len()
            &&& forall|i: int|
                0 <= i < items.len() ==> t.coordinates[i] == coord_of_item(items[i]).unwrap()
        }),
        gpx_spec(t) == gpx_header() + xml_escape(t.name) + gpx_middle() + trkpt_frags(
            t.coordinates,
        ).flatten() + gpx_footer(),
        trkpt_frags(t.coordinates).len() == t.coordinates.len(),
        forall|i: int|
            0 <= i < t.coordinates.len() ==> trkpt_frags(t.coordinates)[i] == trkpt_xml(
                t.coordinates[i],
            ),
{
    lemma_trkpts_is_flatten(t.coordinates);
}

/// The pipeline output is a function of the fetched page
/// alone — two runs over the same text yield the same tour and
/// byte-identical GPX documents.
pub proof fn lemma_pipeline_deterministic(html: Seq<char>, t1: TourView, t2: TourView)
    requires
        extract_spec(html) == ExtractOutcome::Tour(t1),
        extract_spec(html) == ExtractOutcome::Tour(t2),
    ensures
        t1 == t2,
        gpx_spec(t1) == gpx_spec(t2),
{
}

/// A tour without coordinates renders as a document
/// whose `trkseg` element is empty — nothing stands between its opening
/// and closing tags.
pub proof fn lemma_empty_track(t: TourView)
    requires
        t.coordinates.len() == 0,
    ensures
        gpx_spec(t) == gpx_header() + xml_escape(t.name) + gpx_middle() + gpx_footer(),
{
    assert(trkpts_xml(t.coordinates) =~= Seq::<char>::empty());
    assert(gpx_header() + xml_escape(t.name) + gpx_middle() + trkpts_xml(t.coordinates)
        + gpx_footer() =~= gpx_header() + xml_escape(t.name) + gpx_middle() + gpx_footer());
}

/// One of the five XML entities begins at position `i` of `e`.
pub open spec fn entity_at(e: Seq<char>, i: int) -> bool {
    0 <= i && ((i + 5 <= e.len() && e.subrange(i, i + 5) == "&amp;"@) || (i + 4 <= e.len()
        && e.subrange(i, i + 4) == "&lt;"@) || (i + 4 <= e.len() && e.subrange(i, i + 4)
        == "&gt;"@) || (i + 6 <= e.len() && e.subrange(i, i + 6) == "&quot;"@) || (i + 6
        <= e.len() && e.subrange(i, i + 6) == "&apos;"@))
}

/// The escaped text holds no raw markup character — no
/// `<`, no `>`, no `"` — and every `&` in it begins one of the five XML
/// entities, so a tour name spliced into the `name` element re-parses as
/// character data.
pub proof fn lemma_escape_wellformed(s: Seq<char>)
    ensures
        forall|i: int|
            0 <= i < xml_escape(s).len() ==> xml_escape(s)[i] != '<' && xml_escape(s)[i] != '>'
                && xml_escape(s)[i] != '"',
        forall|i: int|
            0 <= i < xml_escape(s).len() && xml_escape(s)[i] == '&' ==> entity_at(
                xml_escape(s),
                i,
            ),
    decreases s.len(),
{
    reveal_strlit("&amp;");
    reveal_strlit("&lt;");
    reveal_strlit("&gt;");
    reveal_strlit("&quot;");
    reveal_strlit("&apos;");
    if s.len() > 0 {
        lemma_escape_wellformed(s.skip(1));
        let head = xml_escape_char(s[0]);
        let rest = xml_escape(s.skip(1));
        let e = xml_escape(s);
        assert(e == head + rest);
        assert forall|i: int| 0 <= i < head.len() implies head[i] != '<' && head[i] != '>'
            && head[i] != '"' && (head[i] == '&' ==> i == 0) by {
            if s[0] != '&' && s[0] != '<' && s[0] != '>' && s[0] != '"' && s[0] != '\'' {
                assert(head =~= seq![s[0]]);
            }
        }
        assert forall|i: int| 0 <= i < e.len() && e[i] == '&' implies entity_at(e, i) by {
            if i < head.len() {
                assert(head[i] == '&');
                assert(i == 0);
                assert(s[0] == '&' || s[0] == '<' || s[0] == '>' || s[0] == '"' || s[0]
                    == '\'') by {
                    if s[0] != '&' && s[0] != '<' && s[0] != '>' && s[0] != '"' && s[0]
                        != '\'' {
                        assert(head =~= seq![s[0]]);
                        assert(head[0] != '&');
                    }
                }
                assert(e.subrange(0, head.len() as int) =~= head);
            } else {
                let i2 = i - head.len();
                assert(e[i] == rest[i2]);
                assert(entity_at(rest, i2));
                if i2 + 5 <= rest.len() && rest.subrange(i2, i2 + 5) == "&amp;"@ {
                    assert(e.subrange(i, i + 5) =~= rest.subrange(i2, i2 + 5));
                } else if i2 + 4 <= rest.len() && rest.subrange(i2, i2 + 4) == "&lt;"@ {
                    assert(e.subrange(i, i + 4) =~= rest.subrange(i2, i2 + 4));
                } else if i2 + 4 <= rest.len() && rest.subrange(i2, i2 + 4) == "&gt;"@ {
                    assert(e.subrange(i, i + 4) =~= rest.subrange(i2, i2 + 4));
                } else if i2 + 6 <= rest.len() && rest.subrange(i2, i2 + 6) == "&quot;"@ {
                    assert(e.subrange(i, i + 6) =~= rest.subrange(i2, i2 + 6));
                } else {
                    assert(e.subrange(i, i + 6) =~= rest.subrange(i2, i2 + 6));
                }
            }
        }
    }
}

proof fn lemma_no_marker_no_find(html: Seq<char>, i: int)
    requires
        forall|j: int| !marker_at(html, j),
    ensures
        find_marker_from(html, i) is None,
    decreases html.len() - i,
{
    if !(i < 0 || i >= html.len() || i + marker().len() > html.len()) {
        assert(!marker_at(html, i));
        lemma_no_marker_no_find(html, i + 1);
    }
}

/// A page in which the marker occurs nowhere yields
/// the pattern-not-found failure, and so no tour and no output.
pub proof fn lemma_missing_payload(html: Seq<char>)
    requires
        forall|j: int| !marker_at(html, j),
    ensures
        extract_spec(html) == ExtractOutcome::PatternNotFound,
{
    lemma_no_marker_no_find(html, 0);
}

} // verus!
