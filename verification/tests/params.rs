use rusto::fixed::FP_ONE;
use rusto::shader_params::{
    check_names_unique, Param, ParamError, ParamGroup, ParamValue, ShaderParams,
};

fn mat4_identity_value() -> ParamValue {
    let mut m = [0i32; 16];
    m[0] = FP_ONE;
    m[5] = FP_ONE;
    m[10] = FP_ONE;
    m[15] = FP_ONE;
    ParamValue::Mat4(m)
}

fn matrices_schema() -> ShaderParams {
    let groups = vec![ParamGroup {
        name: "Matrices".to_string(),
        params: vec![Param {
            name: "model_view_proj".to_string(),
            value: mat4_identity_value(),
        }],
    }];
    ShaderParams::new(groups)
}

#[test]
fn set_then_flush_returns_the_name_and_drains() {
    // schema Matrices { model_view_proj: mat4 }
    let mut sp = matrices_schema();
    let m = mat4_identity_value();
    sp.set("model_view_proj", m).unwrap();
    let changed = sp.flush_changes();
    assert_eq!(changed, vec!["model_view_proj".to_string()]);
    // a second flush without an intervening set returns an empty list
    let again = sp.flush_changes();
    assert!(again.is_empty());
}

#[test]
fn set_updates_the_value_get_reads_it_back() {
    let mut sp = matrices_schema();
    sp.set("model_view_proj", ParamValue::F32(99)).unwrap();
    match sp.get("model_view_proj").unwrap() {
        ParamValue::F32(v) => assert_eq!(*v, 99),
        _ => panic!("wrong value kind"),
    }
}

#[test]
fn set_unknown_name_fails_and_changes_nothing() {
    let mut sp = matrices_schema();
    let r = sp.set("no_such_param", ParamValue::F32(1));
    match r {
        Err(ParamError::UnknownParameter(n)) => assert_eq!(n, "no_such_param"),
        _ => panic!("expected an unknown-parameter error"),
    }
    // values unchanged
    match sp.get("model_view_proj").unwrap() {
        ParamValue::Mat4(m) => assert_eq!(m[0], FP_ONE),
        _ => panic!("wrong value kind"),
    }
    // dirty log unchanged
    assert!(sp.flush_changes().is_empty());
}

#[test]
fn get_unknown_name_fails() {
    let sp = matrices_schema();
    assert!(matches!(
        sp.get("missing"),
        Err(ParamError::UnknownParameter(_))
    ));
}

#[test]
fn duplicate_sets_keep_duplicate_dirty_entries() {
    // the consumer dedupes; the log itself keeps every set
    let mut sp = matrices_schema();
    sp.set("model_view_proj", ParamValue::F32(1)).unwrap();
    sp.set("model_view_proj", ParamValue::F32(2)).unwrap();
    let changed = sp.flush_changes();
    assert_eq!(changed.len(), 2);
    assert_eq!(changed[0], "model_view_proj");
    assert_eq!(changed[1], "model_view_proj");
}

#[test]
fn name_uniqueness_check_spots_duplicates_across_groups() {
    let unique = vec![
        ParamGroup {
            name: "A".to_string(),
            params: vec![Param { name: "x".to_string(), value: ParamValue::F32(0) }],
        },
        ParamGroup {
            name: "B".to_string(),
            params: vec![Param { name: "y".to_string(), value: ParamValue::F32(0) }],
        },
    ];
    assert!(check_names_unique(&unique));
    let clashing = vec![
        ParamGroup {
            name: "A".to_string(),
            params: vec![Param { name: "x".to_string(), value: ParamValue::F32(0) }],
        },
        ParamGroup {
            name: "B".to_string(),
            params: vec![Param { name: "x".to_string(), value: ParamValue::F32(0) }],
        },
    ];
    assert!(!check_names_unique(&clashing));
}

#[test]
fn groups_expose_the_schema_in_order() {
    let sp = matrices_schema();
    let groups = sp.groups();
    assert_eq!(groups.len(), 1);
    assert_eq!(groups[0].name, "Matrices");
    assert_eq!(groups[0].params.len(), 1);
    assert_eq!(groups[0].params[0].name, "model_view_proj");
}
