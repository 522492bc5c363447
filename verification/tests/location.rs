use calendar::location::{
    all_failed_message, coordinate_fields, coordinate_source, endpoint, locate_step, place_label, snippet,
    CoordinateSource, LocateStep,
};

fn s(x: &str) -> Option<String> {
    Some(x.to_string())
}

#[test]
fn place_labels() {
    assert_eq!(place_label(s("Paris"), s("France"), s("FR"), None, None), "Paris, France");
    assert_eq!(place_label(s("Paris"), None, s("FR"), None, None), "Paris, FR");
    assert_eq!(place_label(s("Paris"), s(""), s("FR"), None, None), "Paris");
    assert_eq!(place_label(s(""), s("France"), None, s("IDF"), None), "France");
    assert_eq!(place_label(None, None, None, s("IDF"), s("Paris")), "IDF");
    assert_eq!(place_label(None, None, None, None, s("Paris")), "Paris");
    assert_eq!(place_label(None, None, None, None, None), "当前位置");
    assert_eq!(place_label(None, None, None, s(""), s("Paris")), "");
}

#[test]
fn coordinate_texts() {
    assert_eq!(coordinate_fields("39.9, 116.4"), ("39.9".to_string(), Some("116.4".to_string())));
    assert_eq!(coordinate_fields("1,2,3"), ("1".to_string(), Some("2".to_string())));
    assert_eq!(coordinate_fields(",5"), ("".to_string(), Some("5".to_string())));
    assert_eq!(coordinate_fields("1,"), ("1".to_string(), Some("".to_string())));
    assert_eq!(coordinate_fields(" 39.9 "), ("39.9".to_string(), None));
    assert_eq!(coordinate_fields("abc"), ("abc".to_string(), None));
    assert_eq!(coordinate_fields(""), ("".to_string(), None));
}

#[test]
fn latitude_is_read_before_a_missing_longitude_is_reported() {
    // "abc": the latitude text is there but is no number, so that is reported first.
    let (lat, lon) = coordinate_fields("abc");
    assert!(lat.parse::<f64>().is_err());
    assert!(lon.is_none());
    // "12.5": the latitude reads, and only then is the longitude missing.
    let (lat, lon) = coordinate_fields("12.5");
    assert_eq!(lat.parse::<f64>(), Ok(12.5));
    assert!(lon.is_none());
}

#[test]
fn services_are_asked_in_order() {
    assert_eq!(endpoint(0), Some("https://ipwho.is/"));
    assert_eq!(endpoint(1), Some("https://ipinfo.io/json"));
    assert_eq!(endpoint(2), Some("https://freeipapi.com/api/json/"));
    assert_eq!(endpoint(3), None);
}

#[test]
fn locate_steps() {
    let mut errors = Vec::new();
    match locate_step(&mut errors, Err::<u8, String>("e1".to_string())) {
        LocateStep::Ask(u) => assert_eq!(u, "https://ipinfo.io/json"),
        other => panic!("unexpected {other:?}"),
    }
    match locate_step(&mut errors, Err::<u8, String>("e2".to_string())) {
        LocateStep::Ask(u) => assert_eq!(u, "https://freeipapi.com/api/json/"),
        other => panic!("unexpected {other:?}"),
    }
    match locate_step(&mut errors, Ok::<u8, String>(7)) {
        LocateStep::Located(l) => assert_eq!(l, 7),
        other => panic!("unexpected {other:?}"),
    }
    assert_eq!(errors, vec!["e1".to_string(), "e2".to_string()]);
    match locate_step(&mut errors, Err::<u8, String>("e3".to_string())) {
        LocateStep::Failed(m) => assert_eq!(m, "所有定位服务均失败:\ne1\ne2\ne3"),
        other => panic!("unexpected {other:?}"),
    }
}

#[test]
fn snippets_keep_120_characters() {
    assert_eq!(snippet("short"), "short");
    let long: String = std::iter::repeat('界').take(200).collect();
    assert_eq!(snippet(&long).chars().count(), 120);
    assert_eq!(snippet(""), "");
}

#[test]
fn failure_messages() {
    assert_eq!(all_failed_message(&vec![]), "所有定位服务均失败:\n");
    assert_eq!(all_failed_message(&vec!["a".to_string()]), "所有定位服务均失败:\na");
    assert_eq!(
        all_failed_message(&vec!["a".to_string(), "b".to_string(), "c".to_string()]),
        "所有定位服务均失败:\na\nb\nc"
    );
}

#[test]
fn coordinate_sources() {
    assert_eq!(coordinate_source(Some(1), Some(2), Some("3,4".to_string())), Ok(CoordinateSource::Pair(1, 2)));
    assert_eq!(coordinate_source(Some(1), None, Some("3,4".to_string())), Ok(CoordinateSource::Text("3,4".to_string())));
    assert_eq!(coordinate_source::<u8>(None, None, Some("".to_string())), Ok(CoordinateSource::Text("".to_string())));
    assert_eq!(coordinate_source::<u8>(None, Some(2), None), Err("缺少经纬度".to_string()));
}
