//! The GPX builder: renders a tour as a GPX 1.1 track document, and derives
//! a safe output filename from the tour's name.

use vstd::prelude::*;
use vstd::string::StringExecFns;

use crate::tour::CoordView;
use crate::tour::Tour;
use crate::tour::TourView;

verus! {

/// The XML text rendering of one character: the five standard entities for
/// the markup characters, the character itself otherwise.
pub open spec fn xml_escape_char(c: char) -> Seq<char> {
    if c == '&' {
        "&amp;"@
    } else if c == '<' {
        "&lt;"@
    } else if c == '>' {
        "&gt;"@
    } else if c == '"' {
        "&quot;"@
    } else if c == '\'' {
        "&apos;"@
    } else {
        seq![c]
    }
}

/// The XML text rendering of a text: each character escaped in place.
pub open spec fn xml_escape(s: Seq<char>) -> Seq<char>
    decreases s.len(),
{
    if s.len() == 0 {
        Seq::empty()
    } else {
        xml_escape_char(s[0]) + xml_escape(s.skip(1))
    }
}

/// Everything before the escaped tour name: the XML declaration, the `gpx`
/// root element with the GPX 1.1 namespace, schema location and creator
/// attributes, the opening `trk` and `name` tags.
pub open spec fn gpx_header() -> Seq<char> {
    "<?xml version=\"1.0\" encoding=\"UTF-8\"?>\n"@
        + "<gpx creator=\"Felix's Komoot\" version=\"1.1\" xsi:schemaLocation=\"http://www.topografix.com/GPX/1/1 http://www.topografix.com/GPX/11.xsd\" xmlns:ns3=\"http://www.garmin.com/xmlschemas/TrackPointExtension/v1\" xmlns=\"http://www.topografix.com/GPX/1/1\" xmlns:xsi=\"http://www.w3.org/2001/XMLSchema-instance\" xmlns:ns2=\"http://www.garmin.com/xmlschemas/GpxExtensions/v3\">\n"@
        + "<trk>\n"@ + "<name>"@
}

/// Between the escaped tour name and the track points: the closing `name`
/// tag and the opening `trkseg` tag.
pub open spec fn gpx_middle() -> Seq<char> {
    "</name>\n"@ + "<trkseg>\n"@
}

/// Everything after the track points: the closing `trkseg`, `trk` and
/// `gpx` tags.
pub open spec fn gpx_footer() -> Seq<char> {
    "</trkseg>\n"@ + "</trk>\n"@ + "</gpx>\n"@
}

/// One track point: a `trkpt` element carrying the latitude and longitude
/// as attributes and one `ele` child carrying the altitude.
pub open spec fn trkpt_xml(c: CoordView) -> Seq<char> {
    "<trkpt lat=\""@ + c.lat + "\" lon=\""@ + c.lng + "\">\n"@ + "<ele>"@ + c.alt
        + "</ele>\n"@ + "</trkpt>\n"@
}

/// The track points in traversal order, one `trkpt` element each.
pub open spec fn trkpts_xml(coords: Seq<CoordView>) -> Seq<char>
    decreases coords.len(),
{
    if coords.len() == 0 {
        Seq::empty()
    } else {
        trkpt_xml(coords[0]) + trkpts_xml(coords.skip(1))
    }
}

/// The whole GPX 1.1 document for a tour.
pub open spec fn gpx_spec(t: TourView) -> Seq<char> {
    gpx_header() + xml_escape(t.name) + gpx_middle() + trkpts_xml(t.coordinates) + gpx_footer()
}

/// Escaping one more character at the end escapes it in place.
pub proof fn lemma_xml_escape_snoc(s: Seq<char>, c: char)
    ensures
        xml_escape(s.push(c)) == xml_escape(s) + xml_escape_char(c),
    decreases s.len(),
{
    if s.len() == 0 {
        assert(s.push(c)[0] == c);
        assert(s.push(c).skip(1) =~= Seq::<char>::empty());
        assert(xml_escape(s.push(c)) == xml_escape_char(c) + xml_escape(
            Seq::<char>::empty(),
        ));
        assert(xml_escape(Seq::<char>::empty()) =~= Seq::<char>::empty());
        assert(xml_escape_char(c) + Seq::<char>::empty() =~= xml_escape_char(c));
        assert(xml_escape(s) =~= Seq::<char>::empty());
        assert(Seq::<char>::empty() + xml_escape_char(c) =~= xml_escape_char(c));
    } else {
        assert(s.push(c)[0] == s[0]);
        assert(s.push(c).skip(1) =~= s.skip(1).push(c));
        lemma_xml_escape_snoc(s.skip(1), c);
        assert(xml_escape(s.push(c)) == xml_escape_char(s[0]) + xml_escape(s.skip(1).push(c)));
        assert(xml_escape(s) == xml_escape_char(s[0]) + xml_escape(s.skip(1)));
        assert(xml_escape_char(s[0]) + (xml_escape(s.skip(1)) + xml_escape_char(c)) =~= (
        xml_escape_char(s[0]) + xml_escape(s.skip(1))) + xml_escape_char(c));
    }
}

/// Rendering one more track point at the end renders it in place.
pub proof fn lemma_trkpts_snoc(coords: Seq<CoordView>, c: CoordView)
    ensures
        trkpts_xml(coords.push(c)) == trkpts_xml(coords) + trkpt_xml(c),
    decreases coords.len(),
{
    if coords.len() == 0 {
        assert(coords.push(c)[0] == c);
        assert(coords.push(c).skip(1) =~= Seq::<CoordView>::empty());
        assert(trkpts_xml(coords.push(c)) == trkpt_xml(c) + trkpts_xml(
            Seq::<CoordView>::empty(),
        ));
        assert(trkpts_xml(Seq::<CoordView>::empty()) =~= Seq::<char>::empty());
        assert(trkpt_xml(c) + Seq::<char>::empty() =~= trkpt_xml(c));
        assert(trkpts_xml(coords) =~= Seq::<char>::empty());
        assert(Seq::<char>::empty() + trkpt_xml(c) =~= trkpt_xml(c));
    } else {
        assert(coords.push(c)[0] == coords[0]);
        assert(coords.push(c).skip(1) =~= coords.skip(1).push(c));
        lemma_trkpts_snoc(coords.skip(1), c);
        assert(trkpts_xml(coords.push(c)) == trkpt_xml(coords[0]) + trkpts_xml(
            coords.skip(1).push(c),
        ));
        assert(trkpts_xml(coords) == trkpt_xml(coords[0]) + trkpts_xml(coords.skip(1)));
        assert(trkpt_xml(coords[0]) + (trkpts_xml(coords.skip(1)) + trkpt_xml(c)) =~= (
        trkpt_xml(coords[0]) + trkpts_xml(coords.skip(1))) + trkpt_xml(c));
    }
}

/// Appends the XML text rendering of `s`.
fn append_escaped(out: &mut String, s: &str)
    ensures
        final(out)@ == old(out)@ + xml_escape(s@),
{
    let n = s.unicode_len();
    let mut i: usize = 0;
    proof {
        assert(s@.take(0) =~= Seq::<char>::empty());
        assert(out@ + xml_escape(s@.take(0)) =~= out@);
    }
    while i < n
        invariant
            n == s@.len(),
            i <= n,
            out@ == old(out)@ + xml_escape(s@.take(i as int)),
        decreases n - i,
    {
        let c = s.get_char(i);
        let ghost out0 = out@;
        if c == '&' {
            out.append("&amp;");
        } else if c == '<' {
            out.append("&lt;");
        } else if c == '>' {
            out.append("&gt;");
        } else if c == '"' {
            out.append("&quot;");
        } else if c == '\'' {
            out.append("&apos;");
        } else {
            out.push(c);
            proof {
                assert(out@ =~= out0 + seq![c]);
            }
        }
        proof {
            assert(out@ =~= out0 + xml_escape_char(c));
            lemma_xml_escape_snoc(s@.take(i as int), c);
            assert(s@.take(i as int).push(c) =~= s@.take(i + 1));
            assert(out@ =~= old(out)@ + xml_escape(s@.take(i + 1)));
        }
        i = i + 1;
    }
    proof {
        assert(s@.take(n as int) =~= s@);
    }
}

/// Renders the GPX 1.1 document for a tour: pure and total, an empty track
/// giving an empty `trkseg` element.
pub fn build_gpx(tour: &Tour) -> (r: String)
    ensures
        r@ == gpx_spec(tour@),
{
    let mut gpx = String::new();
    gpx.append("<?xml version=\"1.0\" encoding=\"UTF-8\"?>\n");
    gpx.append(
        "<gpx creator=\"Felix's Komoot\" version=\"1.1\" xsi:schemaLocation=\"http://www.topografix.com/GPX/1/1 http://www.topografix.com/GPX/11.xsd\" xmlns:ns3=\"http://www.garmin.com/xmlschemas/TrackPointExtension/v1\" xmlns=\"http://www.topografix.com/GPX/1/1\" xmlns:xsi=\"http://www.w3.org/2001/XMLSchema-instance\" xmlns:ns2=\"http://www.garmin.com/xmlschemas/GpxExtensions/v3\">\n",
    );
    gpx.append("<trk>\n");
    gpx.append("<name>");
    proof {
        assert(gpx@ =~= gpx_header());
    }
    append_escaped(&mut gpx, tour.name.as_str());
    gpx.append("</name>\n");
    gpx.append("<trkseg>\n");
    proof {
        assert(gpx@ =~= gpx_header() + xml_escape(tour@.name) + gpx_middle());
    }
    let ghost cvs = tour@.coordinates;
    let nc = tour.coordinates.len();
    proof {
        assert(cvs.take(0) =~= Seq::<CoordView>::empty());
        assert(gpx@ =~= gpx_header() + xml_escape(tour@.name) + gpx_middle() + trkpts_xml(
            cvs.take(0),
        ));
    }
    for idx in 0..nc
        invariant
            nc == tour.coordinates@.len(),
            cvs == tour@.coordinates,
            cvs.len() == nc,
            gpx@ == gpx_header() + xml_escape(tour@.name) + gpx_middle() + trkpts_xml(
                cvs.take(idx as int),
            ),
    {
        let c = &tour.coordinates[idx];
        let ghost g0 = gpx@;
        gpx.append("<trkpt lat=\"");
        gpx.append(c.lat.as_str());
        gpx.append("\" lon=\"");
        gpx.append(c.lng.as_str());
        gpx.append("\">\n");
        gpx.append("<ele>");
        gpx.append(c.alt.as_str());
        gpx.append("</ele>\n");
        gpx.append("</trkpt>\n");
        proof {
            assert(c@ == cvs[idx as int]);
            assert(gpx@ =~= g0 + trkpt_xml(cvs[idx as int]));
            lemma_trkpts_snoc(cvs.take(idx as int), cvs[idx as int]);
            assert(cvs.take(idx as int).push(cvs[idx as int]) =~= cvs.take(idx + 1));
            assert(gpx@ =~= gpx_header() + xml_escape(tour@.name) + gpx_middle() + trkpts_xml(
                cvs.take(idx + 1),
            ));
        }
    }
    gpx.append("</trkseg>\n");
    gpx.append("</trk>\n");
    gpx.append("</gpx>\n");
    proof {
        assert(cvs.take(nc as int) =~= cvs);
        assert(gpx@ =~= gpx_spec(tour@));
    }
    gpx
}

/// A character kept as-is in a filename: an ASCII letter or digit, dash,
/// underscore, space or dot.
pub open spec fn fs_safe_char(c: char) -> bool {
    ('a' <= c && c <= 'z') || ('A' <= c && c <= 'Z') || ('0' <= c && c <= '9') || c == '-' || c
        == '_' || c == ' ' || c == '.'
}

/// The filename-safe rendering of a tour name: each unsafe character
/// replaced by an underscore, the whole bounded to 100 characters, and a
/// fixed fallback where the name is empty.
pub open spec fn sanitized_name(s: Seq<char>) -> Seq<char> {
    let kept = Seq::new(s.len(), |i: int| if fs_safe_char(s[i]) { s[i] } else { '_' });
    let bounded = if kept.len() > 100 {
        kept.take(100)
    } else {
        kept
    };
    if bounded.len() == 0 {
        "tour"@
    } else {
        bounded
    }
}

/// The output filename for a tour name: the safe rendering with the `.gpx`
/// extension.
pub open spec fn gpx_filename(name: Seq<char>) -> Seq<char> {
    sanitized_name(name) + ".gpx"@
}

/// Derives the output filename from the tour's name.
pub fn filename_for(name: &str) -> (r: String)
    ensures
        r@ == gpx_filename(name@),
{
    let n = name.unicode_len();
    let limit: usize = if n > 100 {
        100
    } else {
        n
    };
    let mut out = String::new();
    let mut i: usize = 0;
    while i < limit
        invariant
            n == name@.len(),
            limit == if n > 100 {
                100int
            } else {
                n as int
            },
            i <= limit,
            out@.len() == i,
            forall|t: int|
                0 <= t < i ==> out@[t] == (if fs_safe_char(name@[t]) {
                    name@[t]
                } else {
                    '_'
                }),
        decreases limit - i,
    {
        let c = name.get_char(i);
        if ('a' <= c && c <= 'z') || ('A' <= c && c <= 'Z') || ('0' <= c && c <= '9') || c == '-'
            || c == '_' || c == ' ' || c == '.' {
            out.push(c);
        } else {
            out.push('_');
        }
        i = i + 1;
    }
    if n == 0 {
        out.append("tour");
    }
    out.append(".gpx");
    proof {
        assert(out@ =~= gpx_filename(name@));
    }
    out
}

} // verus!
