use projzst::{
    extra_from_parsed, parse_extra_json, BasicMetadata, ExtraFrame, FullMetadata, HeaderPlan,
    LastFrame, MainFrame, Metadata, PackJob, Packer, ProjzstError, Unpacker, DEFAULT_ZSTD_LEVEL,
};
use std::path::PathBuf;

fn sample() -> FullMetadata {
    FullMetadata::new(
        "test-project",
        "Test Author",
        "test-format",
        "2024",
        "1.0.0",
        "A test project description",
    )
}

#[test]
fn new_converts_every_kind_of_text() {
    let m = FullMetadata::new(
        "info-test",
        Option::<String>::None,
        String::from("fmt"),
        Some("ed"),
        Some(String::from("2.0.0")),
        Option::<&str>::None,
    );
    assert_eq!(m.name, Some("info-test".to_string()));
    assert_eq!(m.auth, None);
    assert_eq!(m.fmt, Some("fmt".to_string()));
    assert_eq!(m.ed, Some("ed".to_string()));
    assert_eq!(m.ver, Some("2.0.0".to_string()));
    assert_eq!(m.desc, None);
    assert!(m.head_extra.is_empty());
}

#[test]
fn new_keeps_unicode_text() {
    let m = FullMetadata::new("项目名称", "作者名 🚀", "フォーマット", "版本2024", "1.0.0-β", "émojis 🎉");
    assert_eq!(m.name.as_deref(), Some("项目名称"));
    assert_eq!(m.auth.as_deref(), Some("作者名 🚀"));
    assert_eq!(m.desc.as_deref(), Some("émojis 🎉"));
}

#[test]
fn default_metadata_is_empty() {
    assert!(FullMetadata::default().is_empty());
    assert!(!sample().is_empty());
    let mut m = FullMetadata::default();
    m.add_head_extra(serde_json::Value::Bool(true));
    assert!(!m.is_empty());
    let only_ver = FullMetadata::default().ver(Some("1".to_string()));
    assert!(!only_ver.is_empty());
}

#[test]
fn setters_change_one_field() {
    let m = sample().name(Some("other".to_string())).desc(None);
    assert_eq!(m.name.as_deref(), Some("other"));
    assert_eq!(m.auth.as_deref(), Some("Test Author"));
    assert_eq!(m.desc, None);
    let m = m.auth(None).fmt(Some("f".into())).ed(Some("e".into()));
    assert_eq!(m.auth, None);
    assert_eq!(m.fmt.as_deref(), Some("f"));
    assert_eq!(m.ed.as_deref(), Some("e"));
    assert_eq!(m.ver.as_deref(), Some("1.0.0"));
}

#[test]
fn add_head_extra_appends_in_order() {
    let mut m = sample();
    m.add_head_extra(serde_json::Value::from(1));
    m.add_head_extra(serde_json::Value::String("two".into()));
    assert_eq!(m.head_extra.len(), 2);
    assert_eq!(m.head_extra[1], serde_json::Value::String("two".into()));
    assert_eq!(m.name.as_deref(), Some("test-project"));
}

#[test]
fn empty_metadata_is_written_as_no_frame() {
    assert!(FullMetadata::default().into_header_frames().is_none());
}

#[test]
fn header_frames_number_extras_from_one() {
    let mut m = sample();
    m.add_head_extra(serde_json::Value::from("a"));
    m.add_head_extra(serde_json::Value::from(2));
    let HeaderPlan { main, extras } = m.into_header_frames().unwrap();
    assert_eq!(main.pjz, 0);
    assert_eq!(main.name.as_deref(), Some("test-project"));
    assert_eq!(main.ver.as_deref(), Some("1.0.0"));
    assert_eq!(main.total, None);
    assert_eq!(main.tail, None);
    assert_eq!(extras.len(), 2);
    assert_eq!(extras[0], ExtraFrame { frame: 1, extra: Some(serde_json::Value::from("a")) });
    assert_eq!(extras[1], ExtraFrame { frame: 2, extra: Some(serde_json::Value::from(2)) });
}

#[test]
fn extras_alone_still_get_a_main_frame() {
    let mut m = FullMetadata::default();
    m.add_head_extra(serde_json::Value::Null);
    let plan = m.into_header_frames().unwrap();
    assert_eq!(plan.main, MainFrame::new(0));
    assert_eq!(plan.extras.len(), 1);
}

#[test]
fn decoded_frames_give_back_the_metadata() {
    let mut m = sample();
    m.add_head_extra(serde_json::Value::from("x"));
    let written = m.clone();
    let plan = m.into_header_frames().unwrap();
    let extras = plan.extras.into_iter().map(Some).collect();
    let back = FullMetadata::from_decoded_frames(Some(plan.main), extras);
    assert_eq!(back, written);
}

#[test]
fn undecodable_frames_add_nothing() {
    let extras = vec![
        None,
        Some(ExtraFrame { frame: 2, extra: None }),
        Some(ExtraFrame::new(3, serde_json::Value::from(3))),
    ];
    let m = FullMetadata::from_decoded_frames(None, extras);
    assert_eq!(m.name, None);
    assert_eq!(m.head_extra, vec![serde_json::Value::from(3)]);
}

#[test]
fn main_frame_fields_and_basic() {
    let f = MainFrame::new(7).name(Some("n".into())).ver(Some("v".into()));
    assert_eq!(f.pjz, 7);
    assert_eq!(f.total, None);
    let b = f.basic();
    assert_eq!(
        b,
        BasicMetadata::default().name(Some("n".into())).ver(Some("v".into()))
    );
}

#[test]
fn last_and_extra_frame_constructors() {
    assert_eq!(LastFrame::new(5).frame, 5);
    let e = ExtraFrame::new(4, serde_json::Value::Bool(false));
    assert_eq!(e.frame, 4);
    assert_eq!(e.extra, Some(serde_json::Value::Bool(false)));
}

#[test]
fn parse_extra_json_reads_objects() {
    let content = r#"{
        "custom_field": "custom_value",
        "numbers": [1, 2, 3],
        "nested": {"a": 1, "b": 2}
    }"#;
    let v = parse_extra_json(content).unwrap();
    assert_eq!(v["custom_field"], "custom_value");
    assert_eq!(v["numbers"][0], 1);
    assert_eq!(v["nested"]["a"], 1);
}

#[test]
fn parse_extra_json_reports_bad_json() {
    assert!(matches!(parse_extra_json("{ not json"), Err(ProjzstError::Json(_))));
    assert!(matches!(parse_extra_json("{} trailing"), Err(ProjzstError::Json(_))));
}

#[test]
fn extra_from_parsed_maps_both_outcomes() {
    let ok = extra_from_parsed(Ok(serde_json::Value::from(1))).unwrap();
    assert_eq!(ok, serde_json::Value::from(1));
    let err = serde_json::from_str::<serde_json::Value>("[").unwrap_err();
    assert!(matches!(extra_from_parsed(Err(err)), Err(ProjzstError::Json(_))));
}

#[test]
fn packer_defaults_and_builders() {
    let p = Packer::new(PathBuf::from("src"), PathBuf::from("out.pjz"));
    assert_eq!(p.level(), DEFAULT_ZSTD_LEVEL);
    assert_eq!(p.level(), 6);
    assert!(p.extra_path().is_none());
    assert!(p.metadata().is_empty());
    let p = p
        .add_metadata(sample())
        .compression_level(19)
        .extra_file(Some(PathBuf::from("extra.json")));
    assert_eq!(p.level(), 19);
    assert_eq!(p.input_file(), &PathBuf::from("src"));
    assert_eq!(p.output_file(), &PathBuf::from("out.pjz"));
    assert_eq!(p.extra_path(), &Some(PathBuf::from("extra.json")));
    assert_eq!(p.metadata().name.as_deref(), Some("test-project"));
}

#[test]
fn pack_job_appends_the_extra_file_value() {
    let p = Packer::new(PathBuf::from("in"), PathBuf::from("out")).add_metadata(sample());
    let PackJob { input_file, output_file, compression_level, header } =
        p.into_job(Some(serde_json::Value::from("extra")));
    assert_eq!(input_file, PathBuf::from("in"));
    assert_eq!(output_file, PathBuf::from("out"));
    assert_eq!(compression_level, 6);
    let plan = header.unwrap();
    assert_eq!(plan.extras.len(), 1);
    assert_eq!(plan.extras[0].frame, 1);
    assert_eq!(plan.extras[0].extra, Some(serde_json::Value::from("extra")));
}

#[test]
fn pack_job_of_empty_metadata_has_no_header() {
    let job = Packer::new(PathBuf::from("in"), PathBuf::from("out")).into_job(None);
    assert!(job.header.is_none());
}

#[test]
fn unpacker_keeps_its_path() {
    let u = Unpacker::new(PathBuf::from("a.pjz"));
    assert_eq!(u.input_file(), &PathBuf::from("a.pjz"));
}
