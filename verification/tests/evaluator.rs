use optcore::error::Error;
use optcore::evaluator::{
    classify_child_output, on_timed_wait, ObjFuncProcessDef, TimedWaitAction, TimedWaitEvent,
    WaitPlan,
};

fn classify(exit_code: Option<i32>, stdout: &[u8]) -> Result<Option<Vec<u8>>, Error> {
    classify_child_output(
        String::from("{\"x\":1}"),
        exit_code,
        stdout.to_vec(),
        b"some stderr".to_vec(),
    )
}

#[test]
fn numeric_value_is_returned() {
    let r = classify(Some(0), b"{\"objFuncVal\": 3.5}");
    let lit = r.unwrap().unwrap();
    assert_eq!(lit, b"3.5".to_vec());
    let val: f64 = std::str::from_utf8(&lit).unwrap().parse().unwrap();
    assert_eq!(val, 3.5);
}

#[test]
fn null_value_is_success_without_value() {
    let r = classify(Some(0), b"{\"objFuncVal\": null}");
    assert!(matches!(r, Ok(None)));
}

#[test]
fn absent_field_is_success_without_value() {
    let r = classify(Some(0), b"{}");
    assert!(matches!(r, Ok(None)));
    let r2 = classify(Some(0), b"  { \"other\" : [1, \"a\\n\", true] }  ");
    assert!(matches!(r2, Ok(None)));
}

#[test]
fn malformed_output_is_invalid_output_error() {
    let r = classify(Some(0), b"not json");
    match r {
        Err(Error::ObjFuncProcInvalidOutput(c)) => {
            assert_eq!(c.obj_func_arg, "{\"x\":1}");
            assert_eq!(c.stdout, b"not json".to_vec());
            assert_eq!(c.stderr, b"some stderr".to_vec());
            assert_eq!(c.exit_code, Some(0));
        },
        _ => panic!("expected the invalid-output error"),
    }
}

#[test]
fn nonzero_exit_is_process_failed_error() {
    let r = classify(Some(1), b"{\"objFuncVal\": 3.5}");
    match r {
        Err(Error::ObjFuncProcFailed(c)) => {
            assert_eq!(c.exit_code, Some(1));
            assert_eq!(c.stdout, b"{\"objFuncVal\": 3.5}".to_vec());
            assert_eq!(c.stderr, b"some stderr".to_vec());
        },
        _ => panic!("expected the process-failed error"),
    }
}

#[test]
fn signaled_exit_is_process_failed_error() {
    let r = classify(None, b"");
    assert!(matches!(r, Err(Error::ObjFuncProcFailed(_))));
}

#[test]
fn trailing_garbage_is_invalid() {
    assert!(matches!(
        classify(Some(0), b"{\"objFuncVal\": 1} x"),
        Err(Error::ObjFuncProcInvalidOutput(_))
    ));
}

#[test]
fn duplicate_field_is_invalid() {
    assert!(matches!(
        classify(Some(0), b"{\"objFuncVal\": 1, \"objFuncVal\": 2}"),
        Err(Error::ObjFuncProcInvalidOutput(_))
    ));
}

#[test]
fn non_numeric_field_is_invalid() {
    assert!(matches!(
        classify(Some(0), b"{\"objFuncVal\": true}"),
        Err(Error::ObjFuncProcInvalidOutput(_))
    ));
    assert!(matches!(
        classify(Some(0), b"{\"objFuncVal\": \"3.5\"}"),
        Err(Error::ObjFuncProcInvalidOutput(_))
    ));
}

#[test]
fn top_level_non_object_is_invalid() {
    assert!(matches!(classify(Some(0), b"3.5"), Err(Error::ObjFuncProcInvalidOutput(_))));
    assert!(matches!(classify(Some(0), b""), Err(Error::ObjFuncProcInvalidOutput(_))));
}

#[test]
fn nested_field_of_same_name_is_ignored() {
    let r = classify(Some(0), b"{\"a\": {\"objFuncVal\": 1}, \"objFuncVal\": 2}");
    assert_eq!(r.unwrap().unwrap(), b"2".to_vec());
}

#[test]
fn exotic_numbers_parse() {
    assert_eq!(classify(Some(0), b"{\"objFuncVal\": -0.5e+10}").unwrap().unwrap(), b"-0.5e+10".to_vec());
    assert_eq!(classify(Some(0), b"{\"objFuncVal\":0}").unwrap().unwrap(), b"0".to_vec());
    assert!(matches!(
        classify(Some(0), b"{\"objFuncVal\": 01}"),
        Err(Error::ObjFuncProcInvalidOutput(_))
    ));
}

#[test]
fn whitespace_around_document_is_tolerated() {
    let r = classify(Some(0), b" \t\r\n{ \"objFuncVal\" : 7 }\n");
    assert_eq!(r.unwrap().unwrap(), b"7".to_vec());
}

#[test]
fn classification_is_deterministic() {
    for _ in 0..3 {
        let a = classify(Some(0), b"{\"objFuncVal\": 3.5}");
        let b = classify(Some(0), b"{\"objFuncVal\": 3.5}");
        assert_eq!(a.unwrap(), b.unwrap());
    }
}

#[test]
fn parser_agrees_with_reference_json_parser() {
    let samples: &[&[u8]] = &[
        b"{\"objFuncVal\": 3.5}",
        b"{\"objFuncVal\": null}",
        b"{}",
        b"not json",
        b"{\"objFuncVal\": 1} x",
        b"3.5",
        b"{\"a\": [1, 2, {\"b\": \"c\\\"d\"}], \"objFuncVal\": -2e3}",
        b"{\"objFuncVal\": 1",
    ];
    for s in samples {
        let ours = optcore::json::parse_child_output(s);
        let reference = match serde_json::from_slice::<serde_json::Value>(s) {
            Err(_) => None,
            Ok(serde_json::Value::Object(m)) => match m.get("objFuncVal") {
                None => Some(None),
                Some(serde_json::Value::Null) => Some(None),
                Some(v) => v.as_f64().map(Some),
            },
            Ok(_) => None,
        };
        assert_eq!(
            ours.is_some(),
            reference.is_some(),
            "disagreement on {:?}",
            String::from_utf8_lossy(s)
        );
        if let (Some(a), Some(b)) = (ours, reference) {
            let ours_val: Option<f64> =
                a.map(|lit| std::str::from_utf8(&lit).unwrap().parse().unwrap());
            assert_eq!(ours_val, b, "value disagreement on {:?}", String::from_utf8_lossy(s));
        }
    }
}

#[test]
fn new_keeps_configuration() {
    let def = ObjFuncProcessDef::new(
        String::from("simulate"),
        vec![String::from("--fast")],
        Some(50),
    );
    assert_eq!(def.program, "simulate");
    assert_eq!(def.args, vec![String::from("--fast")]);
    assert_eq!(def.kill_obj_func_after, Some(50));
}

#[test]
fn full_args_appends_candidate_last() {
    let def = ObjFuncProcessDef::new(
        String::from("simulate"),
        vec![String::from("--fast"), String::from("-v")],
        None,
    );
    let args = def.full_args(&String::from("{\"p\":1}"));
    assert_eq!(
        args,
        vec![String::from("--fast"), String::from("-v"), String::from("{\"p\":1}")]
    );
}

#[test]
fn no_timeout_means_no_timer() {
    let def = ObjFuncProcessDef::new(String::from("simulate"), Vec::new(), None);
    assert!(matches!(def.wait_plan(), WaitPlan::WaitToExit));
}

#[test]
fn timeout_races_with_configured_duration() {
    let def = ObjFuncProcessDef::new(String::from("simulate"), Vec::new(), Some(50));
    match def.wait_plan() {
        WaitPlan::RaceAgainstTimer(ms) => assert_eq!(ms, 50),
        _ => panic!("expected a race against the timer"),
    }
}

#[test]
fn elapsed_timer_kills_reaps_and_returns_no_value() {
    assert!(matches!(
        on_timed_wait(TimedWaitEvent::TimerElapsed),
        TimedWaitAction::KillReapAndNoValue
    ));
    assert!(matches!(
        on_timed_wait(TimedWaitEvent::ProcessExited),
        TimedWaitAction::ClassifyExit
    ));
}
