use sample_changer::handeye::{
    aim_pose_entries, field_array, field_scalar, field_str, pose_line, reply_answers, ArrayError,
    Scalar,
};

/// A scalar field as the daemon reads it: `true` is 1, `false` and
/// `null` are 0, and a number is its leading number text, parsed.
fn number(reply: &str, key: &str) -> Option<f64> {
    match field_scalar(reply, key)? {
        Scalar::True => Some(1.0),
        Scalar::FalseOrNull => Some(0.0),
        Scalar::Number(text) => text.parse().ok(),
    }
}

/// An array field's elements, trimmed and parsed.
fn numbers(reply: &str, key: &str) -> Result<Vec<f64>, String> {
    match field_array(reply, key) {
        Ok(pieces) => pieces
            .iter()
            .map(|p| p.trim().parse::<f64>().map_err(|e| format!("{p}: {e}")))
            .collect(),
        Err(e) => Err(format!("{e:?}")),
    }
}

#[test]
fn reads_the_detector_reply_shape() {
    let reply = r#"{"ok":true,"cmd":"detect","id":0,"t":[0.01,-0.02,0.29],"R":[1,0,0,0,1,0,0,0,1],"reproj":0.31,"side_px":137.5,"center":[321.7,246.3],"corners":[253.0,177.9,390.4,178.1,390.3,315.4,252.9,315.2]}"#;
    assert_eq!(number(reply, "ok"), Some(1.0));
    assert_eq!(field_str(reply, "cmd"), "detect");
    assert_eq!(number(reply, "reproj"), Some(0.31));
    assert_eq!(numbers(reply, "t").unwrap(), vec![0.01, -0.02, 0.29]);
    assert_eq!(numbers(reply, "R").unwrap().len(), 9);
    assert_eq!(numbers(reply, "center").unwrap(), vec![321.7, 246.3]);
    assert_eq!(numbers(reply, "corners").unwrap().len(), 8);
}

/// A failed detect carries `ok:false` and a reason string, and must
/// not be mistaken for a success with a missing field.
#[test]
fn reads_a_failed_reply() {
    let reply = r#"{"ok":false,"cmd":"detect","reason":"no tag in frame"}"#;
    assert_eq!(number(reply, "ok"), Some(0.0));
    assert_eq!(field_str(reply, "cmd"), "detect");
    assert_eq!(field_str(reply, "reason"), "no tag in frame");
    assert!(numbers(reply, "t").is_err());
    assert_eq!(field_array(reply, "t"), Err(ArrayError::Missing));
}

/// A well-formed detection that answers the previous request must be
/// rejected, not consumed.
#[test]
fn a_reply_to_another_command_is_not_a_detection() {
    let hello = r#"{"ok":true,"cmd":"hello","message":"RS405: 640x480"}"#;
    let detect = r#"{"ok":true,"cmd":"detect","t":[0.0,0.0,0.29]}"#;
    assert_ne!(field_str(hello, "cmd"), "detect");
    assert_eq!(field_str(detect, "cmd"), "detect");
    // Without the echo both look like successes.
    assert_eq!(number(hello, "ok"), number(detect, "ok"));
    assert!(!reply_answers(hello, "detect"));
    assert!(reply_answers(detect, "detect"));
}

/// Negative exponents appear in the pose fields at these magnitudes.
#[test]
fn reads_exponent_notation() {
    let reply = r#"{"t":[1.5e-05,-2.5e-3,0.29]}"#;
    assert_eq!(numbers(reply, "t").unwrap()[0], 1.5e-05);
    assert_eq!(numbers(reply, "t").unwrap()[1], -2.5e-3);
}

/// `depth_K: null` sits immediately before `K`: the null is no
/// numbers, not the next key's array.
#[test]
fn a_null_field_is_no_numbers_and_not_the_next_array() {
    let no_depth = r#"{"ok":true,"cmd":"hello","message":"m","depth_K":null,"K":[393.284,0.0,321.745,0.0,392.673,246.323,0.0,0.0,1.0],"dist":[-0.05],"tag_size_m":0.1,"image_size":[640,480]}"#;
    assert_eq!(numbers(no_depth, "depth_K").unwrap(), Vec::<f64>::new());
    assert_eq!(numbers(no_depth, "K").unwrap()[0], 393.284);
    let with_depth = no_depth.replace(
        "\"depth_K\":null",
        "\"depth_K\":[389.555,0.0,322.806,0.0,389.555,244.102,0.0,0.0,1.0]",
    );
    let dk = numbers(&with_depth, "depth_K").unwrap();
    assert_eq!((dk[0], dk[2], dk[5]), (389.555, 322.806, 244.102));
}

#[test]
fn array_errors_say_which_shape_was_wrong() {
    assert_eq!(field_array(r#"{"t":0.5}"#, "t"), Err(ArrayError::NotArray));
    assert_eq!(field_array(r#"{"t":[1,2"#, "t"), Err(ArrayError::Unterminated));
    assert_eq!(
        field_array(r#"{"t":[1, 2 ,3]}"#, "t"),
        Ok(vec!["1".to_string(), " 2 ".to_string(), "3".to_string()])
    );
    // "plane_range" is not "plane".
    assert_eq!(
        field_array(r#"{"ok":true,"cmd":"detect","plane_range":0.25471}"#, "plane"),
        Err(ArrayError::Missing)
    );
}

#[test]
fn scalar_fields_read_their_literal_or_number_text() {
    let reply = r#"{"ok": true, "n":-2.5e3, "x":null, "s":"a"}"#;
    assert_eq!(field_scalar(reply, "ok"), Some(Scalar::True));
    assert_eq!(field_scalar(reply, "n"), Some(Scalar::Number("-2.5e3".to_string())));
    assert_eq!(field_scalar(reply, "x"), Some(Scalar::FalseOrNull));
    assert_eq!(field_scalar(reply, "s"), Some(Scalar::Number(String::new())));
    assert_eq!(field_scalar(reply, "missing"), None);
    assert_eq!(field_str(reply, "missing"), "");
}

#[test]
fn an_aim_pose_file_reads_as_joint_lines() {
    let text = "# The pose the last usable hand-eye capture started from.\n\
                shoulder_pan_joint: 0.100000000\n\
                \n\
                wrist_3_joint: -1.5\n";
    let entries = aim_pose_entries(text);
    assert_eq!(
        entries,
        vec![
            Ok(("shoulder_pan_joint".to_string(), " 0.100000000".to_string())),
            Ok(("wrist_3_joint".to_string(), " -1.5".to_string())),
        ]
    );
    assert_eq!(
        aim_pose_entries("shoulder_pan_joint: not-a-number\n"),
        vec![Ok(("shoulder_pan_joint".to_string(), " not-a-number".to_string()))]
    );
    assert_eq!(
        aim_pose_entries("  garbage line  \r\n"),
        vec![Err("garbage line".to_string())]
    );
    assert_eq!(aim_pose_entries(""), Vec::new());
    assert_eq!(pose_line("   # comment"), None);
    assert_eq!(
        pose_line(" a : b : c "),
        Some(Ok(("a ".to_string(), " b : c".to_string())))
    );
}
