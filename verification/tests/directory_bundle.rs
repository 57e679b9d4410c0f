use fact_cli::directory_bundle::filter_directory_bundle_for_actors;
use fact_cli::errors::FactError;

const A: &str = "01900000-0000-7000-8000-000000000001";
const B: &str = "01900000-0000-7000-8000-000000000002";

fn id(text: &str) -> u128 {
    u128::from_str_radix(&text.replace('-', ""), 16).unwrap()
}

fn bundle() -> String {
    format!(
        r#"{{"schema":"fact.directory-bundle.v1","events":[{{"target_id":"{A}","n":1}},{{"target_id":"{B}","n":2}},{{"target_id":"nope","n":3}},{{"n":4}},{{"target_id":"{A}","n":5}}],"z":true}}"#
    )
}

#[test]
fn keeps_events_about_the_actors() {
    let out = filter_directory_bundle_for_actors(bundle().as_bytes(), &[id(A)]).unwrap().unwrap();
    let expected: serde_json::Value = serde_json::from_str(&format!(
        r#"{{"schema":"fact.directory-bundle.v1","events":[{{"target_id":"{A}","n":1}},{{"target_id":"{A}","n":5}}],"z":true}}"#
    ))
    .unwrap();
    assert_eq!(out, serde_json::to_vec_pretty(&expected).unwrap());
    let both = filter_directory_bundle_for_actors(bundle().as_bytes(), &[id(B), id(A)]).unwrap().unwrap();
    let value: serde_json::Value = serde_json::from_slice(&both).unwrap();
    assert_eq!(value["events"].as_array().unwrap().len(), 3);
}

#[test]
fn nothing_left_or_no_events() {
    assert!(matches!(
        filter_directory_bundle_for_actors(bundle().as_bytes(), &[7]),
        Ok(None)
    ));
    match filter_directory_bundle_for_actors(br#"{"events":{}}"#, &[id(A)]) {
        Err(FactError::User(m)) => assert_eq!(m, "directory bundle has no events"),
        other => panic!("{other:?}"),
    }
    match filter_directory_bundle_for_actors(b"[1,2]", &[id(A)]) {
        Err(FactError::User(m)) => assert_eq!(m, "directory bundle has no events"),
        other => panic!("{other:?}"),
    }
    assert!(matches!(
        filter_directory_bundle_for_actors(b"{not json", &[id(A)]),
        Err(FactError::Json(_))
    ));
}
