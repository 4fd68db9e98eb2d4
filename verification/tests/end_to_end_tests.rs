use recur_func_parser::{
    execute_query, parse_query, parse_recur_functions, RecurFunctionParseError,
};

#[test]
fn addition_of_two_and_three_is_five() {
    let table =
        parse_recur_functions("zero=$z;one=($s:$z);two=($s:one);add=[$p1.1,($s:$p3.3)];").unwrap();
    let query = parse_query("add 2 3", &table).unwrap();
    assert_eq!(execute_query(&query, &table), Some(5));
}

#[test]
fn addition_without_arguments_is_refused() {
    let table =
        parse_recur_functions("zero=$z;one=($s:$z);two=($s:one);add=[$p1.1,($s:$p3.3)];").unwrap();
    assert!(matches!(
        parse_query("add", &table),
        Err(RecurFunctionParseError::InvalidArgumentsCount(_))
    ));
}

#[test]
fn unknown_name_in_a_query_is_undefined_identifier() {
    let table =
        parse_recur_functions("zero=$z;one=($s:$z);two=($s:one);add=[$p1.1,($s:$p3.3)];").unwrap();
    assert!(matches!(
        parse_query("undefined_name", &table),
        Err(RecurFunctionParseError::UndefinedIdentifier(_))
    ));
}

#[test]
fn predecessor_by_primitive_recursion() {
    let table = parse_recur_functions("dec=[$z,$p2.1];").unwrap();
    let query = parse_query("dec 0", &table).unwrap();
    assert_eq!(execute_query(&query, &table), Some(0));
    let query = parse_query("dec 5", &table).unwrap();
    assert_eq!(execute_query(&query, &table), Some(4));
}

#[test]
fn minimization_over_a_unary_base_is_refused() {
    let result = parse_recur_functions("isZero=[$z,($s:$p2.1)];find={isZero,10};");
    match result {
        Err(RecurFunctionParseError::InvalidArgumentsCount(text)) => {
            assert_eq!(text, "{isZero,10}")
        }
        other => panic!("unexpected: {:?}", other.map(|_| ())),
    }
}
