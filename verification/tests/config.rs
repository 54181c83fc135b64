use evalexpr::{ContextWithMutableVariables, HashMapContext, Value};
use sandoitchi_bridge_service::vts::config::{
    collect_periods, extract_wave_pingpong_numbers, is_builtin_parameter, precalc_cfg, CalcFn,
    TransformationRule, CYCLIC_PATTERN, EXPLANATION,
};
use sandoitchi_bridge_service::vts::requests::ParameterCreation;
use std::collections::HashSet;

fn record(name: &str, func: &str) -> CalcFn {
    CalcFn { name: name.to_string(), func: func.to_string() }
}

fn sorted(periods: HashSet<u64>) -> Vec<u64> {
    let mut periods: Vec<u64> = periods.into_iter().collect();
    periods.sort();
    periods
}

fn no_periods() -> Vec<u64> {
    Vec::new()
}

#[test]
fn a_rule_evaluates_on_its_context() {
    let rule = TransformationRule::compile("Sum".to_string(), "a + b".to_string()).unwrap();
    let mut context = HashMapContext::new();
    context.set_value("a".to_string(), Value::Float(2.0)).unwrap();
    context.set_value("b".to_string(), Value::Float(3.5)).unwrap();
    assert_eq!(rule.node().eval_with_context(&context), Ok(Value::Float(5.5)));
    assert_eq!(rule.name(), "Sum");
    assert_eq!(rule.func(), "a + b");
    assert!(!rule.is_afk());
}

#[test]
fn an_absent_variable_fails_the_evaluation_not_the_compilation() {
    let rule = TransformationRule::compile("P".to_string(), "missing * 2".to_string()).unwrap();
    assert!(rule.node().eval_with_context(&HashMapContext::new()).is_err());
}

#[test]
fn a_broken_expression_does_not_compile() {
    assert!(TransformationRule::compile("P".to_string(), "(1 + 2".to_string()).is_err());
    assert!(TransformationRule::compile("P".to_string(), "1 + 2)".to_string()).is_err());
}

#[test]
fn rules_that_keep_running_without_a_frame() {
    for (func, expected) in [
        ("FaceFound", true),
        ("1 - FaceFound * 2", true),
        ("Wave1000", true),
        ("PingPong250 / 2", true),
        ("Wavelength", true),
        ("JawOpen * 2", false),
        ("facefound", false),
        ("Ping + Pong", false),
        ("1", false),
    ] {
        let rule = TransformationRule::compile("P".to_string(), func.to_string()).unwrap();
        assert_eq!(rule.is_afk(), expected, "rule {:?}", func);
    }
}

#[test]
fn periods_of_one_expression() {
    assert_eq!(
        sorted(extract_wave_pingpong_numbers("Wave500 + PingPong1000 * Wave500")),
        vec![500, 1000]
    );
    assert_eq!(sorted(extract_wave_pingpong_numbers("JawOpen * 2")), no_periods());
    assert_eq!(sorted(extract_wave_pingpong_numbers("Wave + PingPong")), no_periods());
    assert_eq!(sorted(extract_wave_pingpong_numbers("Wave007")), vec![7]);
    assert_eq!(sorted(extract_wave_pingpong_numbers("Wave0")), vec![0]);
    assert_eq!(sorted(extract_wave_pingpong_numbers("xWave12y")), vec![12]);
    assert_eq!(sorted(extract_wave_pingpong_numbers("wave12")), no_periods());
    assert_eq!(
        sorted(extract_wave_pingpong_numbers("PingPong18446744073709551615")),
        vec![18446744073709551615]
    );
}

#[test]
fn digits_that_write_no_number_count_for_nothing() {
    assert_eq!(sorted(extract_wave_pingpong_numbers("Wave18446744073709551616")), no_periods());
    // Digits of other scripts belong to the mention but write no number.
    assert_eq!(sorted(extract_wave_pingpong_numbers("Wave١٢٣")), no_periods());
    assert_eq!(sorted(extract_wave_pingpong_numbers("Wave12٣ + Wave5")), vec![5]);
}

#[test]
fn captures_are_collected_once_each() {
    let mut periods: HashSet<u64> = HashSet::from([5]);
    collect_periods(
        &mut periods,
        &vec![
            Some("10".to_string()),
            None,
            Some("5".to_string()),
            Some("x".to_string()),
            Some("010".to_string()),
            Some("7".to_string()),
        ],
    );
    assert_eq!(sorted(periods), vec![5, 7, 10]);
}

#[test]
fn built_in_parameters() {
    let names = [
        "FacePositionX", "FacePositionY", "FacePositionZ", "FaceAngleX", "FaceAngleY",
        "FaceAngleZ", "MouthSmile", "MouthOpen", "Brows", "TongueOut", "EyeOpenLeft",
        "EyeOpenRight", "EyeLeftX", "EyeLeftY", "EyeRightX", "EyeRightY", "CheekPuff",
        "FaceAngry", "BrowLeftY", "BrowRightY", "MouthX", "VoiceFrequencyPlusMouthSmile",
    ];
    for name in names {
        assert!(is_builtin_parameter(name), "{}", name);
    }
    for name in ["", "faceanglex", "FaceAngleX ", "MouthY", "Custom", "EyeOpen"] {
        assert!(!is_builtin_parameter(name), "{:?}", name);
    }
}

#[test]
fn loading_a_configuration() {
    let loaded = precalc_cfg(vec![
        record("FaceAngleX", "HeadRotX * 2"),
        record("Breath", "Wave4000"),
        record("MouthOpen", "JawOpen + PingPong500 * 0"),
        record("Sway", "Wave4000 + Wave500 * FaceFound"),
    ])
    .unwrap();
    let names: Vec<&str> = loaded.rules.iter().map(|rule| rule.name()).collect();
    assert_eq!(names, vec!["FaceAngleX", "Breath", "MouthOpen", "Sway"]);
    let funcs: Vec<&str> = loaded.rules.iter().map(|rule| rule.func()).collect();
    assert_eq!(
        funcs,
        vec!["HeadRotX * 2", "Wave4000", "JawOpen + PingPong500 * 0", "Wave4000 + Wave500 * FaceFound"]
    );
    let afk: Vec<bool> = loaded.rules.iter().map(|rule| rule.is_afk()).collect();
    assert_eq!(afk, vec![false, true, true, true]);
    assert_eq!(sorted(loaded.periods), vec![500, 4000]);
    assert_eq!(
        loaded.registrations,
        vec![
            ParameterCreation {
                parameter_name: "Breath".to_string(),
                explanation: "Custom Sandoitchi Bridge param".to_string(),
                rule: 1
            },
            ParameterCreation {
                parameter_name: "Sway".to_string(),
                explanation: "Custom Sandoitchi Bridge param".to_string(),
                rule: 3
            },
        ]
    );
}

#[test]
fn an_empty_configuration_loads() {
    let loaded = precalc_cfg(vec![]).unwrap();
    assert!(loaded.rules.is_empty());
    assert!(loaded.periods.is_empty());
    assert!(loaded.registrations.is_empty());
}

#[test]
fn the_first_broken_expression_turns_the_configuration_down() {
    let error = precalc_cfg(vec![
        record("A", "1 + 1"),
        record("B", "(Wave500"),
        record("C", "2 + 3)"),
    ])
    .err()
    .unwrap();
    assert_eq!(error.rule, 1);
    assert_eq!(error.func, "(Wave500");
    assert_eq!(Err(error.cause), evalexpr::build_operator_tree("(Wave500"));
}

#[test]
fn constants_of_the_loader() {
    assert_eq!(CYCLIC_PATTERN, r"(Wave|PingPong)(\d+)");
    assert_eq!(EXPLANATION, "Custom Sandoitchi Bridge param");
}

#[test]
fn a_rule_holds_the_tree_of_its_text() {
    for func in ["a + b", "Wave500 * 2 - FaceFound", "1", "min(JawOpen, 0.5)"] {
        let rule = TransformationRule::compile("P".to_string(), func.to_string()).unwrap();
        assert_eq!(Ok(rule.node().clone()), evalexpr::build_operator_tree(func));
        assert_ne!(Ok(rule.node().clone()), evalexpr::build_operator_tree("0 - 1"));
    }
}
