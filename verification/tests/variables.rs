use nstow::error::StowError;
use nstow::vars::{expand_text, parse_variable, var_replacement, Binding, Variables};

fn declare(raw: &[&str]) -> Variables {
    let mut variables = Variables::new(Vec::new());
    for entry in raw {
        let (name, value) = parse_variable(entry).unwrap();
        variables.insert(name, value);
    }
    variables
}

#[test]
fn parse_variable_splits_at_the_first_equals() {
    assert_eq!(parse_variable("KEY=VALUE"), Ok(("KEY".to_string(), "VALUE".to_string())));
    assert_eq!(parse_variable("A=b=c=d"), Ok(("A".to_string(), "b=c=d".to_string())));
    assert_eq!(parse_variable("A="), Ok(("A".to_string(), "".to_string())));
    assert_eq!(parse_variable("=v"), Ok(("".to_string(), "v".to_string())));
}

#[test]
fn parse_variable_rejects_text_without_equals() {
    assert_eq!(
        parse_variable("NOVALUE"),
        Err(StowError::InvalidVariableSyntax("NOVALUE".to_string()))
    );
    assert_eq!(parse_variable(""), Err(StowError::InvalidVariableSyntax("".to_string())));
}

#[test]
fn nested_variable_resolves() {
    let mut variables = declare(&["A=1", "B=${A}2"]);
    assert_eq!(var_replacement("${B}", &mut variables), Ok("12".to_string()));
}

#[test]
fn resolved_value_is_stored_back() {
    let mut variables = declare(&["A=1", "B=${A}2"]);
    var_replacement("${B}", &mut variables).unwrap();
    assert_eq!(variables.get(&"B".to_string()), Some("12".to_string()));
    assert_eq!(variables.get(&"A".to_string()), Some("1".to_string()));
}

#[test]
fn later_declaration_wins() {
    let variables = declare(&["A=1", "A=2"]);
    assert_eq!(variables.get(&"A".to_string()), Some("2".to_string()));
    assert_eq!(variables.get(&"B".to_string()), None);
}

#[test]
fn snapshot_is_overlaid_by_declarations() {
    let mut variables = Variables::new(vec![
        Binding { name: "HOME".to_string(), value: "/home/me".to_string() },
        Binding { name: "USER".to_string(), value: "me".to_string() },
    ]);
    assert_eq!(variables.depth(), 2);
    variables.insert("HOME".to_string(), "/elsewhere".to_string());
    assert_eq!(var_replacement("${HOME}/${USER}", &mut variables), Ok("/elsewhere/me".to_string()));
}

#[test]
fn text_around_references_is_kept() {
    let mut variables = declare(&["X=mid", "Y_2=end"]);
    assert_eq!(
        var_replacement("a-${X}-b-${Y_2}", &mut variables),
        Ok("a-mid-b-end".to_string())
    );
    assert_eq!(var_replacement("plain", &mut variables), Ok("plain".to_string()));
    assert_eq!(var_replacement("", &mut variables), Ok("".to_string()));
}

#[test]
fn what_is_no_reference_is_copied() {
    let mut variables = declare(&["X=v"]);
    assert_eq!(var_replacement("${}", &mut variables), Ok("${}".to_string()));
    assert_eq!(var_replacement("${X", &mut variables), Ok("${X".to_string()));
    assert_eq!(var_replacement("$X}", &mut variables), Ok("$X}".to_string()));
    assert_eq!(var_replacement("${X-Y}", &mut variables), Ok("${X-Y}".to_string()));
    assert_eq!(var_replacement("$${X}", &mut variables), Ok("$v".to_string()));
    assert_eq!(var_replacement("${${X}}", &mut variables), Ok("${v}".to_string()));
}

#[test]
fn undefined_variable_is_an_error() {
    let mut variables = declare(&["A=1"]);
    assert_eq!(
        var_replacement("x${MISSING}y", &mut variables),
        Err(StowError::UndefinedVariable("MISSING".to_string()))
    );
    let mut nested = declare(&["A=${NOPE}"]);
    assert_eq!(
        var_replacement("${A}", &mut nested),
        Err(StowError::UndefinedVariable("NOPE".to_string()))
    );
}

#[test]
fn replacement_is_not_read_again() {
    let mut variables = declare(&["D=$", "B={A}", "A=1"]);
    assert_eq!(var_replacement("${D}${B}", &mut variables), Ok("${A}".to_string()));
}

#[test]
fn self_reference_is_a_cycle() {
    let mut variables = declare(&["A=${A}"]);
    assert_eq!(
        var_replacement("${A}", &mut variables),
        Err(StowError::CyclicVariable("A".to_string()))
    );
}

#[test]
fn mutual_reference_is_a_cycle() {
    let mut variables = declare(&["A=${B}", "B=${A}"]);
    assert!(matches!(
        var_replacement("${A}", &mut variables),
        Err(StowError::CyclicVariable(_))
    ));
}

#[test]
fn chain_as_long_as_the_declarations_resolves() {
    let mut variables = declare(&["A=${B}a", "B=${C}b", "C=c"]);
    assert_eq!(var_replacement("${A}", &mut variables), Ok("cba".to_string()));
}

#[test]
fn depth_bounds_nesting() {
    let mut variables = declare(&["A=${B}", "B=x"]);
    assert_eq!(
        expand_text("${A}", &mut variables, 1),
        Err(StowError::CyclicVariable("B".to_string()))
    );
    let mut variables = declare(&["A=${B}", "B=x"]);
    assert_eq!(expand_text("${A}", &mut variables, 2), Ok("x".to_string()));
    let mut variables = declare(&["A=x"]);
    assert_eq!(
        expand_text("${A}", &mut variables, 0),
        Err(StowError::CyclicVariable("A".to_string()))
    );
}
