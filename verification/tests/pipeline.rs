use komoot_gpx::Coordinate;
use komoot_gpx::ExtractError;
use komoot_gpx::Tour;
use komoot_gpx::build_gpx;
use komoot_gpx::extract;
use komoot_gpx::filename_for;
use komoot_gpx::komoot_to_file;

const SCENARIO_JSON: &str = r#"{"page":{"_embedded":{"tour":{"name":"Morning Ride","_embedded":{"coordinates":{"items":[{"lat":41.1,"lng":2.1,"alt":12.0},{"lat":41.2,"lng":2.2,"alt":15.5}]}}}}}}"#;

fn embed_quoted(payload: &str) -> String {
    let escaped = payload.replace('"', "\\\"");
    format!(
        "<html><body><script>kmtBoot.setProps(\"{}\");</script></body></html>",
        escaped
    )
}

fn embed_bare(payload: &str) -> String {
    format!(
        "<html><body><script>kmtBoot.setProps({});</script></body></html>",
        payload
    )
}

#[test]
fn scenario_quoted_payload() {
    let html = embed_quoted(SCENARIO_JSON);
    let tour = extract(&html).unwrap();
    assert_eq!(tour.name, "Morning Ride");
    assert_eq!(tour.coordinates.len(), 2);
    assert_eq!(tour.coordinates[0].lat, "41.1");
    assert_eq!(tour.coordinates[0].lng, "2.1");
    assert_eq!(tour.coordinates[0].alt, "12.0");
    assert_eq!(tour.coordinates[1].lat, "41.2");
    assert_eq!(tour.coordinates[1].lng, "2.2");
    assert_eq!(tour.coordinates[1].alt, "15.5");
    let gpx = build_gpx(&tour);
    assert!(gpx.contains("<trk>\n<name>Morning Ride</name>\n<trkseg>\n"));
    assert!(gpx.contains("<trkpt lat=\"41.1\" lon=\"2.1\">\n<ele>12.0</ele>\n</trkpt>\n"));
    assert!(gpx.contains("<trkpt lat=\"41.2\" lon=\"2.2\">\n<ele>15.5</ele>\n</trkpt>\n"));
}

#[test]
fn scenario_bare_payload() {
    let html = embed_bare(SCENARIO_JSON);
    let tour = extract(&html).unwrap();
    assert_eq!(tour.name, "Morning Ride");
    assert_eq!(tour.coordinates.len(), 2);
}

#[test]
fn round_trip_ordering() {
    let payload = r#"{"page":{"_embedded":{"tour":{"name":"T","_embedded":{"coordinates":{"items":[{"lat":1.0,"lng":10.0,"alt":100.0},{"lat":2.0,"lng":20.0,"alt":200.0},{"lat":3.0,"lng":30.0,"alt":300.0}]}}}}}}"#;
    let html = embed_quoted(payload);
    let tour = extract(&html).unwrap();
    assert_eq!(tour.coordinates.len(), 3);
    let gpx = build_gpx(&tour);
    assert_eq!(gpx.matches("<trkpt ").count(), 3);
    let first = gpx.find("<trkpt lat=\"1.0\"").unwrap();
    let second = gpx.find("<trkpt lat=\"2.0\"").unwrap();
    let third = gpx.find("<trkpt lat=\"3.0\"").unwrap();
    assert!(first < second && second < third);
}

#[test]
fn idempotent_pipeline() {
    let html = embed_quoted(SCENARIO_JSON);
    let (name_a, gpx_a) = komoot_to_file(&html).unwrap();
    let (name_b, gpx_b) = komoot_to_file(&html).unwrap();
    assert_eq!(name_a, name_b);
    assert_eq!(gpx_a.as_bytes(), gpx_b.as_bytes());
    assert_eq!(name_a, "Morning Ride.gpx");
}

#[test]
fn name_is_escaped() {
    let tour = Tour {
        name: String::from("A & B <C> \"D\""),
        coordinates: vec![],
    };
    let gpx = build_gpx(&tour);
    assert!(gpx.contains("<name>A &amp; B &lt;C&gt; &quot;D&quot;</name>"));
}

#[test]
fn escaped_name_through_extraction() {
    let payload = r#"{"page":{"_embedded":{"tour":{"name":"Fish & Chips <tour>","_embedded":{"coordinates":{"items":[]}}}}}}"#;
    let html = embed_quoted(payload);
    let tour = extract(&html).unwrap();
    assert_eq!(tour.name, "Fish & Chips <tour>");
    let gpx = build_gpx(&tour);
    assert!(gpx.contains("<name>Fish &amp; Chips &lt;tour&gt;</name>"));
}

#[test]
fn empty_track() {
    let tour = Tour {
        name: String::from("Empty"),
        coordinates: vec![],
    };
    let gpx = build_gpx(&tour);
    assert!(gpx.contains("<trkseg>\n</trkseg>\n"));
    assert!(!gpx.contains("<trkpt"));
    assert!(gpx.starts_with("<?xml version=\"1.0\" encoding=\"UTF-8\"?>\n"));
    assert!(gpx.ends_with("</trkseg>\n</trk>\n</gpx>\n"));
}

#[test]
fn exact_document_for_one_point() {
    let tour = Tour {
        name: String::from("Ride"),
        coordinates: vec![Coordinate {
            lat: String::from("1.5"),
            lng: String::from("2.5"),
            alt: String::from("3.5"),
        }],
    };
    let gpx = build_gpx(&tour);
    let expected = "<?xml version=\"1.0\" encoding=\"UTF-8\"?>\n<gpx creator=\"Felix's Komoot\" version=\"1.1\" xsi:schemaLocation=\"http://www.topografix.com/GPX/1/1 http://www.topografix.com/GPX/11.xsd\" xmlns:ns3=\"http://www.garmin.com/xmlschemas/TrackPointExtension/v1\" xmlns=\"http://www.topografix.com/GPX/1/1\" xmlns:xsi=\"http://www.w3.org/2001/XMLSchema-instance\" xmlns:ns2=\"http://www.garmin.com/xmlschemas/GpxExtensions/v3\">\n<trk>\n<name>Ride</name>\n<trkseg>\n<trkpt lat=\"1.5\" lon=\"2.5\">\n<ele>3.5</ele>\n</trkpt>\n</trkseg>\n</trk>\n</gpx>\n";
    assert_eq!(gpx, expected);
}

#[test]
fn missing_payload() {
    let html = "<html><body>No bootstrap blob here.</body></html>";
    assert_eq!(extract(html), Err(ExtractError::PatternNotFound));
    assert_eq!(komoot_to_file(html), Err(ExtractError::PatternNotFound));
}

#[test]
fn unbalanced_invocation_is_not_found() {
    let html = "<html>kmtBoot.setProps(\"never closed</html>";
    assert_eq!(extract(html), Err(ExtractError::PatternNotFound));
}

#[test]
fn malformed_json() {
    let html = embed_bare("this is not json");
    match extract(&html) {
        Err(ExtractError::MalformedJson(_)) => {}
        other => panic!("expected MalformedJson, got {:?}", other),
    }
}

#[test]
fn missing_name_field() {
    let html = embed_quoted(r#"{"page":{"_embedded":{"tour":{"title":"x"}}}}"#);
    assert_eq!(
        extract(&html),
        Err(ExtractError::MissingField(String::from("name")))
    );
}

#[test]
fn missing_coordinates_field() {
    let html = embed_quoted(r#"{"page":{"_embedded":{"tour":{"name":"x"}}}}"#);
    assert_eq!(
        extract(&html),
        Err(ExtractError::MissingField(String::from("coordinates")))
    );
}

#[test]
fn non_numeric_latitude() {
    let payload = r#"{"page":{"_embedded":{"tour":{"name":"x","_embedded":{"coordinates":{"items":[{"lat":"north","lng":2.1,"alt":12.0}]}}}}}}"#;
    let html = embed_quoted(payload);
    assert_eq!(extract(&html), Err(ExtractError::InvalidCoordinate(0)));
}

#[test]
fn second_item_invalid() {
    let payload = r#"{"page":{"_embedded":{"tour":{"name":"x","_embedded":{"coordinates":{"items":[{"lat":1.0,"lng":2.0,"alt":3.0},{"lng":2.0,"alt":3.0}]}}}}}}"#;
    let html = embed_quoted(payload);
    assert_eq!(extract(&html), Err(ExtractError::InvalidCoordinate(1)));
}

#[test]
fn payload_with_parens_inside_strings() {
    let payload = r#"{"page":{"_embedded":{"tour":{"name":"Loop (short)","_embedded":{"coordinates":{"items":[]}}}}}}"#;
    let html = format!(
        "{}<p>trailing ) paren</p>",
        embed_quoted(payload)
    );
    let tour = extract(&html).unwrap();
    assert_eq!(tour.name, "Loop (short)");
}

#[test]
fn filename_sanitization() {
    assert_eq!(filename_for("Morning Ride"), "Morning Ride.gpx");
    assert_eq!(filename_for("a/b\\c:d"), "a_b_c_d.gpx");
    assert_eq!(filename_for(""), "tour.gpx");
    let long: String = "x".repeat(150);
    let name = filename_for(&long);
    assert_eq!(name.len(), 104);
    assert!(name.ends_with(".gpx"));
}

#[test]
fn integer_coordinates_keep_integer_text() {
    let payload = r#"{"page":{"_embedded":{"tour":{"name":"n","_embedded":{"coordinates":{"items":[{"lat":41,"lng":2,"alt":-7}]}}}}}}"#;
    let html = embed_bare(payload);
    let tour = extract(&html).unwrap();
    assert_eq!(tour.coordinates[0].lat, "41");
    assert_eq!(tour.coordinates[0].lng, "2");
    assert_eq!(tour.coordinates[0].alt, "-7");
}
