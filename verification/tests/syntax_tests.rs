use recur_func_parser::{Pair, RecurFunctionGrammar, Rule, SyntaxError};

fn only(rule: Rule, text: &str) -> Pair {
    let mut pairs = RecurFunctionGrammar::parse(rule, text).unwrap();
    assert_eq!(pairs.len(), 1);
    pairs.remove(0)
}

fn shape(pair: &Pair) -> Vec<(Rule, usize, usize)> {
    pair.inner()
        .iter()
        .map(|inner| {
            (
                inner.as_rule(),
                inner.as_span().start(),
                inner.as_span().end(),
            )
        })
        .collect()
}

#[test]
fn failure_names_the_rule() {
    assert_eq!(
        RecurFunctionGrammar::parse(Rule::zero, "$s").unwrap_err(),
        SyntaxError { rule: Rule::zero }
    );
}

#[test]
fn blank_yields_no_node() {
    for blank in [" ", "\t", "\n", "\r"] {
        assert!(RecurFunctionGrammar::parse(Rule::WHITESPACE, blank)
            .unwrap()
            .is_empty());
    }
    assert!(RecurFunctionGrammar::parse(Rule::WHITESPACE, "").is_err());
}

#[test]
fn end_of_input_matches_the_empty_text_only() {
    let pair = only(Rule::EOI, "");
    assert_eq!(pair.as_rule(), Rule::EOI);
    assert_eq!(pair.as_str(), "");
    assert!(RecurFunctionGrammar::parse(Rule::EOI, "a").is_err());
}

#[test]
fn rule_matches_at_the_start_and_may_leave_a_rest() {
    let pair = only(Rule::integer, "12ab");
    assert_eq!(pair.as_str(), "12");
    assert_eq!(pair.as_span().end(), 2);
    let pair = only(Rule::identifier, "ab_1-c");
    assert_eq!(pair.as_str(), "ab_1");
    let pair = only(Rule::zero, "$zz");
    assert_eq!(pair.as_str(), "$z");
    let pair = only(Rule::integer, "7é");
    assert_eq!(pair.as_str(), "7");
}

#[test]
fn identifier_begins_with_a_letter() {
    assert!(RecurFunctionGrammar::parse(Rule::identifier, "_a").is_err());
    assert!(RecurFunctionGrammar::parse(Rule::identifier, "9a").is_err());
    assert!(RecurFunctionGrammar::parse(Rule::identifier, "éa").is_err());
    assert_eq!(only(Rule::identifier, "Z_9_z").as_str(), "Z_9_z");
}

#[test]
fn projection_holds_its_two_integers() {
    let pair = only(Rule::projection, "$p12.3");
    assert_eq!(
        shape(&pair),
        vec![(Rule::integer, 2, 4), (Rule::integer, 5, 6)]
    );
    assert_eq!(pair.inner()[0].as_str(), "12");
    assert_eq!(pair.inner()[1].as_str(), "3");
}

#[test]
fn function_wraps_the_node_of_its_kind() {
    let pair = only(Rule::recursive_function, "[$z,$p2.1]");
    assert_eq!(pair.as_rule(), Rule::recursive_function);
    assert_eq!(shape(&pair), vec![(Rule::primitive, 0, 10)]);
    let primitive = &pair.inner()[0];
    assert_eq!(
        shape(primitive),
        vec![
            (Rule::recursive_function, 1, 3),
            (Rule::recursive_function, 4, 9)
        ]
    );
    assert_eq!(
        shape(&primitive.inner()[1]),
        vec![(Rule::projection, 4, 9)]
    );
}

#[test]
fn composition_holds_its_base_and_components() {
    let pair = only(Rule::composition, "( add : $p3.3 ,$p3.1, x )");
    assert_eq!(pair.as_str(), "( add : $p3.3 ,$p3.1, x )");
    assert_eq!(
        shape(&pair),
        vec![
            (Rule::recursive_function, 2, 5),
            (Rule::recursive_function, 8, 13),
            (Rule::recursive_function, 15, 20),
            (Rule::recursive_function, 22, 23),
        ]
    );
    assert_eq!(pair.inner()[0].inner()[0].as_rule(), Rule::identifier);
    assert_eq!(pair.inner()[3].as_str(), "x");
}

#[test]
fn minimization_holds_its_base_and_bound() {
    let pair = only(Rule::minimization, "{ f ,\n 100 }");
    assert_eq!(
        shape(&pair),
        vec![(Rule::recursive_function, 2, 3), (Rule::integer, 7, 10)]
    );
}

#[test]
fn kinds_are_told_apart_by_their_first_characters() {
    for (text, kind) in [
        ("$z", Rule::zero),
        ("$s", Rule::successor),
        ("$p1.1", Rule::projection),
        ("($s:$z)", Rule::composition),
        ("[$z,$p2.1]", Rule::primitive),
        ("{$p2.1,3}", Rule::minimization),
        ("zs", Rule::identifier),
    ] {
        let pair = only(Rule::recursive_function, text);
        assert_eq!(pair.as_str(), text);
        assert_eq!(pair.inner()[0].as_rule(), kind);
    }
}

#[test]
fn blanks_inside_a_projection_are_refused() {
    for text in ["$ p1.1", "$p 1.1", "$p1 .1", "$p1. 1", "$ z", "$ s"] {
        assert!(RecurFunctionGrammar::parse(Rule::recursive_function, text).is_err());
    }
}

#[test]
fn unfinished_functions_are_refused() {
    for text in [
        "(", "($s", "($s:", "($s:$z", "($s:$z,", "($s:$z,)", "[", "[$z", "[$z,", "[$z,$s",
        "[$z,$s,$s]", "{", "{$s", "{$s,", "{$s,1", "{$s,1,2}", "$", "$p", "$q",
    ] {
        assert!(
            RecurFunctionGrammar::parse(Rule::recursive_function, text).is_err(),
            "{}",
            text
        );
    }
}

#[test]
fn script_holds_names_and_functions_in_turn_and_the_end() {
    let pair = only(Rule::functions, " a = $z ;\nb=a;");
    assert_eq!(pair.as_span().start(), 0);
    assert_eq!(pair.as_span().end(), 14);
    assert_eq!(
        shape(&pair),
        vec![
            (Rule::identifier, 1, 2),
            (Rule::recursive_function, 5, 7),
            (Rule::identifier, 10, 11),
            (Rule::recursive_function, 12, 13),
            (Rule::EOI, 14, 14),
        ]
    );
}

#[test]
fn query_holds_its_name_its_arguments_and_the_end() {
    let pair = only(Rule::query, " f 10  2\n");
    assert_eq!(pair.as_str(), " f 10  2\n");
    assert_eq!(
        shape(&pair),
        vec![
            (Rule::identifier, 1, 2),
            (Rule::integer, 3, 5),
            (Rule::integer, 7, 8),
            (Rule::EOI, 9, 9),
        ]
    );
}

#[test]
fn node_gives_what_it_was_made_of() {
    let inner = vec![Pair::new(Rule::integer, "7", 3, 4, Vec::new())];
    let pair = Pair::new(Rule::query, "f 7", 1, 4, inner);
    assert_eq!(pair.as_rule(), Rule::query);
    assert_eq!(pair.as_str(), "f 7");
    assert_eq!(pair.as_span().start(), 1);
    assert_eq!(pair.as_span().end(), 4);
    assert_eq!(pair.inner().len(), 1);
    let inner = pair.into_inner();
    assert_eq!(inner[0].as_str(), "7");
    assert_eq!(inner[0].as_span().start(), 3);
}

fn spans_slice_the_input(input: &str, pair: &Pair) {
    let span = pair.as_span();
    assert_eq!(&input[span.start()..span.end()], pair.as_str());
    for inner in pair.inner() {
        spans_slice_the_input(input, inner);
    }
}

#[test]
fn spans_count_the_bytes_of_the_input() {
    let script = " add = [ $p1.1 , ( $s : $p3.3 ) ] ;\n least = { add , 12 } ;\n";
    spans_slice_the_input(script, &only(Rule::functions, script));
    let query = "  least 10 7\n";
    spans_slice_the_input(query, &only(Rule::query, query));
    let rest = "($s:$z)é";
    spans_slice_the_input(rest, &only(Rule::composition, rest));
}
