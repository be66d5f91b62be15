use hss_cli::status::{build_info, last_build_number, BuildInfo, BuildStatus};
use serde_json::Value;

fn doc(text: &str) -> Value {
    serde_json::from_str(text).unwrap()
}

#[test]
fn last_build_number_is_read_from_the_nested_field() {
    assert_eq!(last_build_number(&doc(r#"{"name":"app","lastBuild":{"number":42,"url":"x"}}"#)), Some(42));
    assert_eq!(last_build_number(&doc(r#"{"lastBuild":{"number":18446744073709551615}}"#)), Some(u64::MAX));
    assert_eq!(last_build_number(&doc(r#"{"lastBuild":{"number":0}}"#)), Some(0));
}

#[test]
fn last_build_number_is_absent_when_the_path_is_broken() {
    assert_eq!(last_build_number(&doc(r#"{}"#)), None);
    assert_eq!(last_build_number(&doc(r#"{"lastBuild":null}"#)), None);
    assert_eq!(last_build_number(&doc(r#"{"lastBuild":{}}"#)), None);
    assert_eq!(last_build_number(&doc(r#"{"lastBuild":{"number":"7"}}"#)), None);
    assert_eq!(last_build_number(&doc(r#"{"lastBuild":{"number":-3}}"#)), None);
    assert_eq!(last_build_number(&doc(r#"{"lastBuild":{"number":7.5}}"#)), None);
    assert_eq!(last_build_number(&doc(r#"{"lastBuild":[{"number":7}]}"#)), None);
    assert_eq!(last_build_number(&doc(r#"{"number":7}"#)), None);
    assert_eq!(last_build_number(&doc(r#"[1,2]"#)), None);
    assert_eq!(last_build_number(&doc(r#"7"#)), None);
}

#[test]
fn build_info_reads_flag_and_label() {
    let info = build_info(&doc(r#"{"building":false,"result":"SUCCESS","number":3}"#));
    assert_eq!(info.building, Some(false));
    assert_eq!(info.result.as_deref(), Some("SUCCESS"));
    let info = build_info(&doc(r#"{"building":true,"result":null}"#));
    assert_eq!(info.building, Some(true));
    assert_eq!(info.result, None);
}

#[test]
fn build_info_treats_wrong_types_as_absent() {
    let info = build_info(&doc(r#"{"building":"false","result":1}"#));
    assert_eq!(info.building, None);
    assert_eq!(info.result, None);
    let info = build_info(&doc(r#"{}"#));
    assert_eq!(info.building, None);
    assert_eq!(info.result, None);
    let info = build_info(&doc(r#""building""#));
    assert_eq!(info.building, None);
    assert_eq!(info.result, None);
}

#[test]
fn build_info_keeps_the_label_verbatim() {
    let info = build_info(&doc(r#"{"building":false,"result":" Übel \n?"}"#));
    assert_eq!(info.result.as_deref(), Some(" Übel \n?"));
}

#[test]
fn status_follows_the_building_flag() {
    let info = |building, result: Option<&str>| BuildInfo { building, result: result.map(|s| s.to_string()) };
    assert_eq!(info(None, None).status(), BuildStatus::Pending);
    assert_eq!(info(None, Some("SUCCESS")).status(), BuildStatus::Pending);
    assert_eq!(info(Some(true), None).status(), BuildStatus::Running);
    assert_eq!(info(Some(true), Some("FAILURE")).status(), BuildStatus::Running);
    assert_eq!(
        info(Some(false), Some("ABORTED")).status(),
        BuildStatus::Completed { outcome: "ABORTED".to_string() }
    );
    assert_eq!(info(Some(false), None).status(), BuildStatus::Completed { outcome: "UNKNOWN".to_string() });
}

#[test]
fn status_of_a_document_without_flag_is_pending() {
    assert_eq!(build_info(&doc(r#"{"result":"SUCCESS"}"#)).status(), BuildStatus::Pending);
    assert_eq!(
        build_info(&doc(r#"{"building":false,"result":null}"#)).status(),
        BuildStatus::Completed { outcome: "UNKNOWN".to_string() }
    );
}
