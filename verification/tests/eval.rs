//! The interpreter and the line entry point: variable routing, operator
//! semantics, gotos, errors and the interchange tree.

use yoloxide::environment::Environment;
use yoloxide::errors::EvaluationErrorKind;
use yoloxide::execute_line;
use yoloxide::literal_value::LiteralValue;
use yoloxide::number::YololNumber;

fn fresh() -> Environment {
    Environment::new("test chip")
}

fn run(env: &mut Environment, line: &str) {
    execute_line(env, String::from(line));
}

fn get_num(env: &Environment, name: &str) -> i64 {
    match env.get_value(name) {
        LiteralValue::NumberVal(n) => n.to_inner(),
        LiteralValue::StringVal(s) => panic!("expected a number, found the string {:?}", s),
    }
}

fn get_text(env: &Environment, name: &str) -> String {
    match env.get_value(name) {
        LiteralValue::StringVal(s) => s,
        LiteralValue::NumberVal(n) => panic!("expected a string, found {}", n.to_text()),
    }
}

fn num(whole: i64) -> LiteralValue {
    LiteralValue::NumberVal(YololNumber::from_whole(whole))
}

#[test]
fn assignment_and_lookup_route_by_namespace() {
    let mut env = fresh();
    run(&mut env, "a = 3 :b = 4");
    assert_eq!(get_num(&env, "a"), 30000);
    assert_eq!(get_num(&env, ":b"), 40000);
    assert_eq!(env.error, "");
    // The two namespaces do not shadow one another.
    assert_eq!(get_num(&env, ":a"), 0);
    assert_eq!(get_num(&env, "b"), 0);
}

#[test]
fn goto_sets_the_cursor_and_assigns_the_field() {
    let mut env = fresh();
    run(&mut env, ":x = 5 goto :x");
    assert_eq!(get_num(&env, ":x"), 50000);
    assert_eq!(env.next_line, 5);
    assert_eq!(env.error, "");
}

#[test]
fn goto_clamps_into_the_line_range() {
    let mut env = fresh();
    run(&mut env, "goto 99");
    assert_eq!(env.next_line, 20);
    run(&mut env, "goto -3");
    assert_eq!(env.next_line, 1);
    run(&mut env, "goto 2.9");
    assert_eq!(env.next_line, 2);
}

#[test]
fn goto_rejects_a_string_target() {
    let mut env = fresh();
    run(&mut env, "goto \"five\"");
    assert_eq!(env.next_line, 1);
    assert!(env.error.len() > 0);
}

#[test]
fn post_increment_returns_the_prior_value_in_order() {
    let mut env = fresh();
    run(&mut env, "a = 1 b = a++ c = a");
    assert_eq!(get_num(&env, "a"), 20000);
    assert_eq!(get_num(&env, "b"), 10000);
    assert_eq!(get_num(&env, "c"), 20000);
}

#[test]
fn pre_increment_returns_the_moved_value() {
    let mut env = fresh();
    run(&mut env, "a = 1 b = ++a");
    assert_eq!(get_num(&env, "a"), 20000);
    assert_eq!(get_num(&env, "b"), 20000);
}

#[test]
fn post_decrement_moves_down() {
    let mut env = fresh();
    run(&mut env, "a = 1 b = a-- c = a");
    assert_eq!(get_num(&env, "a"), 0);
    assert_eq!(get_num(&env, "b"), 10000);
    assert_eq!(get_num(&env, "c"), 0);
}

#[test]
fn compound_assignment_starts_from_the_zero_default() {
    let mut env = fresh();
    run(&mut env, "a += 5");
    assert_eq!(get_num(&env, "a"), 50000);
    assert_eq!(env.error, "");
}

#[test]
fn division_by_zero_evaluates_to_zero() {
    let mut env = fresh();
    run(&mut env, "a = 1 / 0 b = 5 % 0");
    assert_eq!(get_num(&env, "a"), 0);
    assert_eq!(get_num(&env, "b"), 0);
    assert_eq!(env.error, "");
}

#[test]
fn sqrt_of_a_negative_value_is_an_operator_error() {
    let mut env = fresh();
    run(&mut env, "a = sqrt -1");
    assert!(env.error.len() > 0);
    assert_eq!(get_num(&env, "a"), 0);
    let direct = num(-1).sqrt();
    let err = direct.unwrap_err();
    assert!(matches!(err.op, yoloxide::ast::Operator::Sqrt));
}

#[test]
fn evaluation_errors_keep_earlier_changes() {
    let mut env = fresh();
    run(&mut env, "a = 2 b = sqrt -1 c = 3");
    assert_eq!(get_num(&env, "a"), 20000);
    assert_eq!(get_num(&env, "c"), 0);
    assert!(env.error.len() > 0);
}

#[test]
fn conditionals_pick_the_branch_by_truthiness() {
    let mut env = fresh();
    run(&mut env, "a = 1 if a > 0 then b = 1 else b = -1 end");
    assert_eq!(get_num(&env, "b"), 10000);
    run(&mut env, "a = -1 if a > 0 then b = 1 else b = -1 end");
    assert_eq!(get_num(&env, "b"), -10000);
    run(&mut env, "c = 1 if c then d = 7 end");
    assert_eq!(get_num(&env, "d"), 70000);
}

#[test]
fn logical_operators_yield_truth_numbers() {
    let mut env = fresh();
    run(&mut env, "a = 1 and 2 b = 0 or 3 c = 0 and 1 d = not 0 e = not 9");
    assert_eq!(get_num(&env, "a"), 10000);
    assert_eq!(get_num(&env, "b"), 10000);
    assert_eq!(get_num(&env, "c"), 0);
    assert_eq!(get_num(&env, "d"), 10000);
    assert_eq!(get_num(&env, "e"), 0);
}

#[test]
fn string_addition_concatenates_through_the_display_form() {
    let mut env = fresh();
    run(&mut env, "a = \"x \" + 1.5 b = 2 + \" y\" c = \"p\" + \"q\"");
    assert_eq!(get_text(&env, "a"), "x 1.5");
    assert_eq!(get_text(&env, "b"), "2 y");
    assert_eq!(get_text(&env, "c"), "pq");
}

#[test]
fn string_subtraction_removes_the_last_occurrence() {
    let mut env = fresh();
    run(&mut env, "a = \"abcabc\" - \"bc\" b = \"hello\" - \"xyz\"");
    assert_eq!(get_text(&env, "a"), "abca");
    assert_eq!(get_text(&env, "b"), "hello");
}

#[test]
fn comparisons_between_shapes_go_through_text() {
    let mut env = fresh();
    run(&mut env, "a = \"1\" == 1 b = \"abc\" < \"abd\" c = 2 < \"20\"");
    // Equality never crosses the two shapes.
    assert_eq!(get_num(&env, "a"), 0);
    assert_eq!(get_num(&env, "b"), 10000);
    assert_eq!(get_num(&env, "c"), 10000);
}

#[test]
fn multiplying_a_string_is_an_operator_error() {
    let mut env = fresh();
    run(&mut env, "a = \"x\" * 2");
    assert!(env.error.len() > 0);
    let direct = LiteralValue::StringVal(String::from("x")).op_mul(num(2));
    assert!(direct.is_err());
}

#[test]
fn lexical_errors_record_text_and_advance_the_cursor() {
    let mut env = fresh();
    run(&mut env, "a = #");
    assert!(env.error.len() > 0);
    assert_eq!(env.next_line, 2);
    assert_eq!(get_num(&env, "a"), 0);
}

#[test]
fn parse_errors_record_text_and_advance_the_cursor() {
    let mut env = fresh();
    run(&mut env, "if then b = 1");
    // Nothing parses where the condition should stand.
    assert!(env.error.len() > 0);
    assert_eq!(env.next_line, 2);
    // An unterminated conditional, though, is tolerated as the reference
    // runtime tolerates it: the input runs out and the body stands.
    let mut env2 = fresh();
    run(&mut env2, "a = 1 if a then b = 1");
    assert_eq!(env2.error, "");
    assert_eq!(get_num(&env2, "b"), 10000);
}

#[test]
fn pow_through_the_language_saturates() {
    let mut env = fresh();
    run(&mut env, "a = 2 ^ 10 b = 2 ^ 100 c = 5 ^ 0");
    assert_eq!(get_num(&env, "a"), 1024 * 10000);
    assert_eq!(get_num(&env, "b"), i64::MAX);
    assert_eq!(get_num(&env, "c"), 10000);
}

#[test]
fn factorial_reports_an_operator_error() {
    let mut env = fresh();
    run(&mut env, "a = 3!");
    assert!(env.error.len() > 0);
    let direct = num(3).factorial();
    assert_eq!(
        yoloxide::errors::EvaluationError::from_operator_error(direct.unwrap_err()).kind,
        EvaluationErrorKind::OperatorError
    );
}

#[test]
fn increment_on_a_literal_is_an_operator_error() {
    let mut env = fresh();
    run(&mut env, "a = ++3");
    // The doubled sign on a literal never forms an increment, so this is
    // a parse error at best; an increment on a computed value is the
    // operator error the evaluator reports.
    let mut env2 = fresh();
    let target = yoloxide::ast::Expression::UnaryOp(
        yoloxide::ast::Operator::PreInc,
        Box::new(yoloxide::ast::Expression::Value(
            yoloxide::ast::Value::NumberVal(YololNumber::from_whole(3)),
        )),
    );
    let out = yoloxide::interpreter::evaluate_unary_op(&mut env2, &target);
    assert_eq!(out.unwrap_err().kind, EvaluationErrorKind::OperatorError);
    let _ = env;
}

#[test]
fn comments_do_nothing_at_runtime() {
    let mut env = fresh();
    run(&mut env, "a = 1 // a = 9");
    assert_eq!(get_num(&env, "a"), 10000);
    assert_eq!(env.error, "");
}

#[test]
fn string_increment_appends_the_display_one() {
    let mut env = fresh();
    run(&mut env, "a = \"v\" a++ b = a");
    assert_eq!(get_text(&env, "b"), "v1");
}

#[test]
fn the_interchange_tree_round_trips_a_line() {
    let tokens = yoloxide::tokenizer::tokenize(String::from(
        "x = 1 + 2 if x > 1 then goto 3 else :f -= \"s\" end // note",
    ))
    .unwrap();
    let statements = yoloxide::parser::parse(tokens).unwrap();
    let line = yoloxide::ast::Line(statements);
    let document = yoloxide::ast::Program(vec![line]).to_cylon();
    assert_eq!(document.lines.len(), 1);
    assert_eq!(document.lines[0].comment, "// note");
    let back = yoloxide::ast::Program::from_cylon(&document).unwrap();
    let again = back.to_cylon();
    assert_eq!(again.lines.len(), 1);
    // The reread tree matches the first one statement for statement.
    let reread = yoloxide::ast::Program::from_cylon(&again).unwrap();
    let first = yoloxide::ast::Program::from_cylon(&document).unwrap();
    assert_eq!(reread.0[0].0, first.0[0].0);
}

#[test]
fn unary_math_on_a_string_is_an_operator_error() {
    let mut env = fresh();
    let target = yoloxide::ast::Expression::UnaryOp(
        yoloxide::ast::Operator::Abs,
        Box::new(yoloxide::ast::Expression::Value(
            yoloxide::ast::Value::StringVal(String::from("s")),
        )),
    );
    let out = yoloxide::interpreter::evaluate_unary_op(&mut env, &target);
    assert_eq!(out.unwrap_err().kind, EvaluationErrorKind::OperatorError);
    let mut env2 = fresh();
    let sqrt_of_text = yoloxide::ast::Expression::UnaryOp(
        yoloxide::ast::Operator::Sqrt,
        Box::new(yoloxide::ast::Expression::Value(
            yoloxide::ast::Value::StringVal(String::from("s")),
        )),
    );
    let out2 = yoloxide::interpreter::evaluate_unary_op(&mut env2, &sqrt_of_text);
    assert_eq!(out2.unwrap_err().kind, EvaluationErrorKind::OperatorError);
    // Logical negation of a string is not an error: every string is truthy.
    let mut env3 = fresh();
    run(&mut env3, "a = not \"s\" b = a + 1");
    assert_eq!(env3.error, "");
    assert_eq!(get_num(&env3, "b"), 10000);
}

#[test]
fn the_interchange_tree_rejects_unknown_spellings() {
    let bad_binary = yoloxide::cylon_ast::CylonExpr::BinaryOp {
        operator: String::from("@@"),
        left: Box::new(yoloxide::cylon_ast::CylonExpr::Number { num: String::from("1") }),
        right: Box::new(yoloxide::cylon_ast::CylonExpr::Number { num: String::from("2") }),
    };
    assert!(yoloxide::ast::Expression::from_cylon(&bad_binary).is_err());
    let bad_number = yoloxide::cylon_ast::CylonExpr::Number { num: String::from("1.2.3") };
    assert!(yoloxide::ast::Expression::from_cylon(&bad_number).is_err());
    let negative_number = yoloxide::cylon_ast::CylonExpr::Number { num: String::from("-1") };
    assert!(yoloxide::ast::Expression::from_cylon(&negative_number).is_err());
}

#[test]
fn the_interchange_tree_spells_logical_negation_not() {
    let not_x = yoloxide::ast::Expression::UnaryOp(
        yoloxide::ast::Operator::Not,
        Box::new(yoloxide::ast::Expression::Value(yoloxide::ast::Value::LocalVar(
            String::from("x"),
        ))),
    );
    let node = not_x.to_cylon();
    match &node {
        yoloxide::cylon_ast::CylonExpr::UnaryOp { operator, .. } => {
            assert_eq!(operator, "not");
        }
        _ => panic!("expected a unary node"),
    }
    let back = yoloxide::ast::Expression::from_cylon(&node).unwrap();
    assert_eq!(back, not_x);
}

#[test]
fn environment_new_starts_clean() {
    let env = fresh();
    assert_eq!(env.next_line, 1);
    assert_eq!(env.error, "");
    assert_eq!(env.name, "test chip");
    assert_eq!(get_num(&env, "anything"), 0);
}

#[test]
fn set_next_line_floors_and_clamps() {
    let mut env = fresh();
    env.set_next_line(YololNumber::from_split(7, 9000));
    assert_eq!(env.next_line, 7);
    env.set_next_line(YololNumber::from_whole(-2));
    assert_eq!(env.next_line, 1);
    env.set_next_line(YololNumber::from_whole(50));
    assert_eq!(env.next_line, 20);
}

#[test]
fn goto_on_a_string_reports_the_miscellaneous_kind() {
    let mut env = fresh();
    let target = yoloxide::ast::Expression::Value(yoloxide::ast::Value::StringVal(
        String::from("five"),
    ));
    let err = yoloxide::interpreter::evaluate_goto(&mut env, &target).unwrap_err();
    assert_eq!(err.kind, EvaluationErrorKind::Misc);
}

#[test]
fn a_misplaced_operator_reports_the_non_exhaustive_kind() {
    let mut env = fresh();
    // A binary operator in a unary node reaches no defined behaviour.
    let node = yoloxide::ast::Expression::UnaryOp(
        yoloxide::ast::Operator::Add,
        Box::new(yoloxide::ast::Expression::Value(
            yoloxide::ast::Value::NumberVal(YololNumber::from_whole(1)),
        )),
    );
    let err = yoloxide::interpreter::evaluate_unary_op(&mut env, &node).unwrap_err();
    assert_eq!(err.kind, EvaluationErrorKind::NonExhaustivePattern);
}

#[test]
fn set_value_routes_like_get_value() {
    let mut env = fresh();
    env.set_value(String::from("k"), num(9));
    env.set_value(String::from(":k"), num(8));
    assert_eq!(get_num(&env, "k"), 90000);
    assert_eq!(get_num(&env, ":k"), 80000);
    // Replacing a binding keeps one value per name.
    env.set_value(String::from("k"), num(2));
    assert_eq!(get_num(&env, "k"), 20000);
}

#[test]
fn pow_compound_assignment_raises_in_place() {
    let mut env = fresh();
    run(&mut env, "a = 2 a ^= 3 :b = 3 :b ^= 2");
    assert_eq!(get_num(&env, "a"), 8 * 10000);
    assert_eq!(get_num(&env, ":b"), 9 * 10000);
    assert_eq!(env.error, "");
}

#[test]
fn arcsin_of_a_negative_in_domain_value_evaluates() {
    let mut env = fresh();
    run(&mut env, "a = arcsin (0 - 0.5) b = arctan (0 - 1)");
    assert_eq!(get_num(&env, "a"), -300000);
    assert_eq!(get_num(&env, "b"), -450000);
    assert_eq!(env.error, "");
}

#[test]
fn or_is_the_loosest_logical_operator() {
    let mut env = fresh();
    run(&mut env, "a = 1 or 0 and 0");
    assert_eq!(get_num(&env, "a"), 10000);
}
