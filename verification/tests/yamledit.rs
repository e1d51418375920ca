use sample_changer::yamledit::{
    line_count, list_line, list_site, replace_lines, scalar_line, scalar_site, EditError,
};

const WAYPOINTS: &str = "/**:\n  ros__parameters:\n    # Tilt about the tool z axis, degrees.\n    holder_on_position_tilt_z_deg: 0.0\n    # Insertion-depth trim per holder, metres.\n    holder_multi_z_offsets: [0.0, 0.0001, 0.0002,\n      0.0003, 0.0004]\n    holder_rack_x_offset: -0.0015  # measured\n";

#[test]
fn a_scalar_is_found_on_its_first_line() {
    let site = scalar_site(WAYPOINTS, "holder_on_position_tilt_z_deg").expect("site");
    assert_eq!(site.line, 3);
    assert_eq!(site.indent, "    ");
    assert_eq!(site.value, "0.0");
    assert!(!site.repeated);
    let rack = scalar_site(WAYPOINTS, "holder_rack_x_offset").expect("site");
    // The trailing comment is part of the value text, which then does
    // not parse as a number: the edit is refused, not guessed at.
    assert_eq!(rack.value, "-0.0015  # measured");
}

#[test]
fn an_unknown_key_is_not_found() {
    assert_eq!(scalar_site(WAYPOINTS, "no_such_key").err(), Some(EditError::NotFound));
    assert_eq!(list_site(WAYPOINTS, "no_such_key").err(), Some(EditError::NotFound));
}

#[test]
fn a_key_set_twice_is_reported() {
    let text = "a: 1\nb: 2\na: 3\n";
    let site = scalar_site(text, "a").expect("site");
    assert_eq!(site.line, 0);
    assert!(site.repeated);
    assert!(!scalar_site(text, "b").expect("site").repeated);
}

#[test]
fn a_scalar_edit_keeps_every_comment() {
    let key = "holder_on_position_tilt_z_deg";
    let site = scalar_site(WAYPOINTS, key).expect("site");
    let line = scalar_line(&site.indent, key, "0.1");
    assert_eq!(line, "    holder_on_position_tilt_z_deg: 0.1");
    assert!(site.line < line_count(WAYPOINTS));
    let edited = replace_lines(WAYPOINTS, site.line, site.line, &line);
    assert_eq!(
        edited,
        WAYPOINTS.replace("holder_on_position_tilt_z_deg: 0.0", "holder_on_position_tilt_z_deg: 0.1")
    );
    assert!(edited.contains("# Insertion-depth trim"));
    let again = scalar_site(&edited, key).expect("site");
    assert_eq!(again.value, "0.1");
    assert_eq!(again.line, site.line);
}

#[test]
fn a_wrapped_list_is_gathered_and_rewritten_on_one_line() {
    let key = "holder_multi_z_offsets";
    let site = list_site(WAYPOINTS, key).expect("site");
    assert_eq!((site.first, site.last), (5, 6));
    assert_eq!(site.indent, "    ");
    assert_eq!(
        site.entries,
        vec!["0.0", " 0.0001", " 0.0002", " 0.0003", " 0.0004"]
    );
    assert!(!site.repeated);
    let formatted: Vec<String> = site
        .entries
        .iter()
        .map(|e| format!("{:?}", e.trim().parse::<f64>().unwrap()))
        .collect();
    let line = list_line(&site.indent, key, &formatted, 3, "0.00025").expect("line");
    assert_eq!(
        line,
        "    holder_multi_z_offsets: [0.0, 0.0001, 0.0002, 0.00025, 0.0004]"
    );
    let edited = replace_lines(WAYPOINTS, site.first, site.last, &line);
    assert!(edited.contains(&format!("{line}\n    holder_rack_x_offset")));
    assert_eq!(line_count(&edited), line_count(WAYPOINTS) - 1);
    let again = list_site(&edited, key).expect("site");
    assert_eq!(again.entries[3], " 0.00025");
    assert_eq!(
        list_line(&site.indent, key, &formatted, 5, "1.0"),
        Err(EditError::TooShort(5))
    );
}

#[test]
fn lists_that_do_not_close_or_are_not_flow_lists_are_refused() {
    assert_eq!(list_site("k: [1, 2,\n  3\n", "k").err(), Some(EditError::Unclosed));
    assert_eq!(list_site("k: 5]\n", "k").err(), Some(EditError::NotFlowList));
    let empty = list_site("k: []\n", "k").expect("site");
    assert_eq!(empty.entries, vec![String::new()]);
}

#[test]
fn lines_end_where_str_lines_ends_them() {
    assert_eq!(line_count(""), 0);
    assert_eq!(line_count("a"), 1);
    assert_eq!(line_count("a\n"), 1);
    assert_eq!(line_count("a\n\n"), 2);
    assert_eq!(replace_lines("a\r\nb\r\nc", 1, 1, "x"), "a\nx\nc\n");
}
