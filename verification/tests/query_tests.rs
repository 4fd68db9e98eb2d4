use recur_func_parser::{
    execute_query, parse_query, parse_recur_functions, query_from_pairs, NameTable, Pair,
    RecurFunctionParseError, Rule,
};

const SCRIPT: &str = "zero=$z;one=($s:$z);two=($s:one);add=[$p1.1,($s:$p3.3)];";

fn names() -> NameTable {
    parse_recur_functions(SCRIPT).unwrap()
}

fn token(rule: Rule, text: &str) -> Pair {
    Pair::new(rule, text, 0, text.len(), Vec::new())
}

#[test]
fn query_holds_its_name_and_arguments() {
    let query = parse_query("add 6 9", &names()).unwrap();
    assert_eq!(query.identifier(), "add");
    assert_eq!(query.arguments(), &vec![6, 9]);
}

#[test]
fn query_may_hold_blanks_around_its_tokens() {
    let table = names();
    let query = parse_query("  add\t12   30 \n", &table).unwrap();
    assert_eq!(query.identifier(), "add");
    assert_eq!(query.arguments(), &vec![12, 30]);
    assert_eq!(execute_query(&query, &table), Some(42));
}

#[test]
fn number_may_be_asked_for_without_arguments() {
    let table = names();
    let query = parse_query("two", &table).unwrap();
    assert_eq!(query.identifier(), "two");
    assert!(query.arguments().is_empty());
    assert_eq!(execute_query(&query, &table), Some(2));
}

#[test]
fn number_may_be_asked_for_with_as_many_arguments_as_its_arity() {
    let table = names();
    let query = parse_query("two 77", &table).unwrap();
    assert_eq!(query.arguments(), &vec![77]);
    assert_eq!(execute_query(&query, &table), Some(2));
}

#[test]
fn number_with_too_many_arguments_is_refused() {
    match parse_query("two 1 2", &names()) {
        Err(RecurFunctionParseError::InvalidArgumentsCount(text)) => assert_eq!(text, "two 1 2"),
        other => panic!("unexpected: {:?}", other),
    }
}

#[test]
fn function_must_get_as_many_arguments_as_its_arity() {
    let table = names();
    for input in ["add", "add 1", "add 1 2 3"] {
        match parse_query(input, &table) {
            Err(RecurFunctionParseError::InvalidArgumentsCount(text)) => assert_eq!(text, input),
            other => panic!("unexpected: {:?}", other),
        }
    }
}

#[test]
fn unknown_name_is_an_undefined_identifier_with_the_whole_query() {
    match parse_query("undefined_name 1 2", &names()) {
        Err(RecurFunctionParseError::UndefinedIdentifier(text)) => {
            assert_eq!(text, "undefined_name 1 2")
        }
        other => panic!("unexpected: {:?}", other),
    }
}

#[test]
fn argument_beyond_32_bits_is_a_parse_int_error() {
    let table = names();
    assert!(matches!(
        parse_query("add 4294967296 1", &table),
        Err(RecurFunctionParseError::ParseIntError(_))
    ));
    let query = parse_query("add 4294967295 0", &table).unwrap();
    assert_eq!(query.arguments(), &vec![4294967295, 0]);
    assert_eq!(execute_query(&query, &table), Some(4294967295));
}

#[test]
fn arguments_are_read_before_they_are_counted() {
    assert!(matches!(
        parse_query("add 1 2 99999999999", &names()),
        Err(RecurFunctionParseError::ParseIntError(_))
    ));
}

#[test]
fn text_that_is_no_query_is_an_undefined_rule() {
    let table = names();
    for input in ["", "   ", "add add", "100 add", "100", "add 1,2", "add -1", "add 1 é"] {
        match parse_query(input, &table) {
            Err(RecurFunctionParseError::UndefinedRule(text)) => assert_eq!(text, input),
            other => panic!("unexpected: {:?}", other),
        }
    }
}

#[test]
fn query_without_nodes_expects_a_name() {
    match query_from_pairs(&Vec::new(), "q", &names()) {
        Err(RecurFunctionParseError::IdentifierExpected(text)) => assert_eq!(text, "q"),
        other => panic!("unexpected: {:?}", other),
    }
}

#[test]
fn query_must_begin_with_a_name() {
    let pairs = vec![token(Rule::integer, "7"), token(Rule::EOI, "")];
    match query_from_pairs(&pairs, "7", &names()) {
        Err(RecurFunctionParseError::IdentifierExpected(text)) => assert_eq!(text, "7"),
        other => panic!("unexpected: {:?}", other),
    }
}

#[test]
fn arguments_must_be_integers() {
    let pairs = vec![
        token(Rule::identifier, "add"),
        token(Rule::integer, "1"),
        token(Rule::identifier, "two"),
    ];
    match query_from_pairs(&pairs, "add 1 two", &names()) {
        Err(RecurFunctionParseError::IntegerExpected(text)) => assert_eq!(text, "two"),
        other => panic!("unexpected: {:?}", other),
    }
}

#[test]
fn arguments_are_read_up_to_the_end_of_input() {
    let pairs = vec![
        token(Rule::identifier, "add"),
        token(Rule::integer, "1"),
        token(Rule::integer, "2"),
        token(Rule::EOI, ""),
        token(Rule::integer, "3"),
    ];
    let query = query_from_pairs(&pairs, "add 1 2", &names()).unwrap();
    assert_eq!(query.arguments(), &vec![1, 2]);
}

#[test]
fn query_for_a_name_unknown_to_the_table_has_no_answer() {
    let query = parse_query("add 2 3", &names()).unwrap();
    assert_eq!(execute_query(&query, &NameTable::new()), None);
    let other = parse_recur_functions("add=$s;").unwrap();
    assert_eq!(execute_query(&query, &other), Some(3));
}

#[test]
fn undefined_value_is_no_failure() {
    let table = parse_recur_functions("find={$p2.1,5};").unwrap();
    let query = parse_query("find 3", &table).unwrap();
    assert_eq!(execute_query(&query, &table), None);
    let query = parse_query("find 0", &table).unwrap();
    assert_eq!(execute_query(&query, &table), Some(0));
}
