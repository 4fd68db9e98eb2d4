use recur_func_parser::{
    define_functions, parse_recur_functions, Pair, RecurFunctionParseError, RecurFunctionType,
    Rule,
};

fn plain(rule: Rule, text: &str) -> Pair {
    Pair::new(rule, text, 0, text.len(), Vec::new())
}

fn wrapped(rule: Rule, text: &str) -> Pair {
    Pair::new(
        Rule::recursive_function,
        text,
        0,
        text.len(),
        vec![plain(rule, text)],
    )
}

#[test]
fn script_defines_its_names_in_order() {
    let table = parse_recur_functions("zero=$z;one=($s:zero);two=($s:one);").unwrap();
    assert_eq!(table.len(), 3);
    assert_eq!(table.get("zero").unwrap().number(), Some(0));
    assert_eq!(table.get("one").unwrap().number(), Some(1));
    assert_eq!(table.get("two").unwrap().number(), Some(2));
    assert!(table.get("three").is_none());
}

#[test]
fn script_may_hold_blanks_between_its_tokens() {
    let table = parse_recur_functions(
        "  zero = $z ;\n\tadd = [ $p1.1 , ( $s : $p3.3 ) ] ;\r\n least = { add , 7 } ;\n",
    )
    .unwrap();
    assert_eq!(table.len(), 3);
    assert_eq!(table.get("add").unwrap().arguments_count(), 2);
    match table.get("least").unwrap().function_type() {
        RecurFunctionType::Minimization(_, max) => assert_eq!(*max, 7),
        other => panic!("unexpected: {:?}", other),
    }
}

#[test]
fn names_are_case_sensitive() {
    let table = parse_recur_functions("f=$z;F=$s;").unwrap();
    assert_eq!(table.get("f").unwrap().number(), Some(0));
    assert_eq!(table.get("F").unwrap().number(), None);
}

#[test]
fn redefinition_fails_with_identifier_already_exists() {
    match parse_recur_functions("a=$z;b=$s;a=$s;") {
        Err(RecurFunctionParseError::IdentifierAlreadyExists(name)) => assert_eq!(name, "a"),
        other => panic!("unexpected: {:?}", other.map(|_| ())),
    }
}

#[test]
fn nothing_after_a_redefinition_is_processed() {
    match parse_recur_functions("a=$z;a=$s;b=unknown;c=$p1.0;") {
        Err(RecurFunctionParseError::IdentifierAlreadyExists(name)) => assert_eq!(name, "a"),
        other => panic!("unexpected: {:?}", other.map(|_| ())),
    }
}

#[test]
fn redefinition_is_found_before_its_function_is_built() {
    assert!(matches!(
        parse_recur_functions("a=$z;a=unknown;"),
        Err(RecurFunctionParseError::IdentifierAlreadyExists(_))
    ));
}

#[test]
fn failure_before_a_redefinition_comes_first() {
    assert!(matches!(
        parse_recur_functions("a=$z;b=unknown;a=$s;"),
        Err(RecurFunctionParseError::UndefinedIdentifier(_))
    ));
}

#[test]
fn definition_sees_only_earlier_names() {
    match parse_recur_functions("a=b;b=$z;") {
        Err(RecurFunctionParseError::UndefinedIdentifier(name)) => assert_eq!(name, "b"),
        other => panic!("unexpected: {:?}", other.map(|_| ())),
    }
    match parse_recur_functions("a=($s:a);") {
        Err(RecurFunctionParseError::UndefinedIdentifier(name)) => assert_eq!(name, "a"),
        other => panic!("unexpected: {:?}", other.map(|_| ())),
    }
}

#[test]
fn failure_of_a_definition_is_the_failure_of_the_script() {
    assert!(matches!(
        parse_recur_functions("a=$z;b=$p2.3;"),
        Err(RecurFunctionParseError::InvalidArgumentsCount(_))
    ));
    assert!(matches!(
        parse_recur_functions("a=$z;b=[a,$s];"),
        Err(RecurFunctionParseError::InvalidPrimitiveStepArgumentsCount(_))
    ));
}

#[test]
fn text_that_is_no_script_is_an_undefined_rule() {
    for input in ["", "a=$z", "a $z;", "a=;", "=$z;", "a=100;", "a=$z;;", "a=$z; é"] {
        match parse_recur_functions(input) {
            Err(RecurFunctionParseError::UndefinedRule(text)) => assert_eq!(text, input),
            other => panic!("unexpected: {:?}", other.map(|_| ())),
        }
    }
}

#[test]
fn definitions_are_read_up_to_the_end_of_input() {
    let pairs = vec![
        plain(Rule::identifier, "a"),
        wrapped(Rule::zero, "$z"),
        plain(Rule::EOI, ""),
        plain(Rule::identifier, "b"),
        wrapped(Rule::successor, "$s"),
    ];
    let table = define_functions(&pairs, "a=$z;").unwrap();
    assert_eq!(table.len(), 1);
    assert!(table.contains_key("a"));
    assert!(!table.contains_key("b"));
}

#[test]
fn no_definitions_make_an_empty_table() {
    assert_eq!(define_functions(&Vec::new(), "").unwrap().len(), 0);
    assert_eq!(
        define_functions(&vec![plain(Rule::EOI, "")], "").unwrap().len(),
        0
    );
}

#[test]
fn definition_must_begin_with_a_name() {
    let pairs = vec![plain(Rule::integer, "12"), wrapped(Rule::zero, "$z")];
    match define_functions(&pairs, "12=$z;") {
        Err(RecurFunctionParseError::IdentifierExpected(text)) => assert_eq!(text, "12"),
        other => panic!("unexpected: {:?}", other.map(|_| ())),
    }
}

#[test]
fn name_must_be_followed_by_a_function() {
    let pairs = vec![plain(Rule::identifier, "a")];
    match define_functions(&pairs, "a=") {
        Err(RecurFunctionParseError::FunctionExpected(text)) => assert_eq!(text, "a="),
        other => panic!("unexpected: {:?}", other.map(|_| ())),
    }
    let pairs = vec![plain(Rule::identifier, "a"), plain(Rule::zero, "$z")];
    match define_functions(&pairs, "a=$z;") {
        Err(RecurFunctionParseError::FunctionExpected(text)) => assert_eq!(text, "$z"),
        other => panic!("unexpected: {:?}", other.map(|_| ())),
    }
}
