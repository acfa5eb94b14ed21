use youdusa::amount::Amount;
use youdusa::ast::{Ast, FunctionDeclaration, Statement};
use youdusa::error::{LineError, ParseError};
use youdusa::parser::Parser;

#[test]
fn test_process_line_new_failure() {
    let mut parser = Parser::new();
    let test_line =
        "⇾ [FAILED] Assertion Test: FuzzTest.prop_anyoneCanIncreaseFundInAPool(uint256,uint256)";

    let result = parser.process_line(test_line.to_string());

    assert!(result.is_ok());
    assert_eq!(
        *parser.current_ast_root(),
        Some(Ast::FunctionDeclaration(FunctionDeclaration::new(
            "test_prop_anyoneCanIncreaseFundInAPool"
        )))
    );
}

#[test]
fn test_process_line_only_new_failure() {
    let mut parser = Parser::new();
    let test_line = "⇾ [FAIL] Foo";

    let result = parser.process_line(test_line.to_string());

    assert!(result.is_ok());
    assert_eq!(*parser.current_ast_root(), None);
}

#[test]
fn test_process_line_fails_invalid_property_name() {
    let mut parser = Parser::new();
    let test_line = "⇾ [FAILED] Foo";

    let result = parser.process_line(test_line.to_string());

    assert_eq!(
        result.unwrap_err().to_string(),
        "failed to parse new broken property"
    );
    assert_eq!(*parser.current_ast_root(), None);
}

#[test]
fn test_process_line_add_from_sequence() {
    let mut parser = Parser::new();
    let test_line =
        "1) FuzzTest.prop_alloOwnerCanAlwaysChangePercentFee(uint256)(15056796) (block=10429, time=19960, gas=12500000, gasprice=1, value=0, sender=0x0000000000000000000000000000000000050000)";

    // We need a valid parent first
    parser.process_line("⇾ [FAILED] Assertion Test: FuzzTest.prop_anyoneCanIncreaseFundInAPool(uint256,uint256)".to_string()).expect("setup fail");

    let result = parser.process_line(test_line.to_string());

    assert!(result.is_ok());
}

#[test]
fn test_process_line_end_sequence() {
    let mut parser = Parser::new();
    let test_line = "[Execution Trace]";

    // valid parent
    assert!(parser.process_line("⇾ [FAILED] Assertion Test: FuzzTest.prop_anyoneCanIncreaseFundInAPool(uint256,uint256)".to_string()).is_ok());

    let result = parser.process_line(test_line.to_string());

    assert!(result.is_ok());
    assert_eq!(
        *parser.reproducers(),
        vec![Ast::FunctionDeclaration(FunctionDeclaration::new(
            "test_prop_anyoneCanIncreaseFundInAPool"
        ))]
    );
    assert_eq!(*parser.current_ast_root(), None);
}

#[test]
fn test_create_new_ast_root_creates() {
    let mut parser = Parser::new();
    let test_line =
        "⇾ [FAILED] Assertion Test: FuzzTest.prop_anyoneCanIncreaseFundInAPool(uint256,uint256)";

    let result = parser.create_new_reproducer(test_line);

    assert!(result.is_ok());

    assert_eq!(
        *parser.current_ast_root(),
        Some(Ast::FunctionDeclaration(FunctionDeclaration::new(
            "test_prop_anyoneCanIncreaseFundInAPool"
        )))
    );
}

#[test]
fn test_create_new_ast_root_wrong_format() {
    let mut parser = Parser::new();
    let test_line = "⇾ [FAILED] Assertion Test: foo";

    let result = parser.create_new_reproducer(test_line);

    assert_eq!(
        result.unwrap_err().to_string(),
        "Couldn't parse property name"
    );
}

#[test]
fn test_extract_property_name_classic() {
    let parser = Parser::new();
    let test_line =
        "⇾ [FAILED] Assertion Test: FuzzTest.prop_anyoneCanIncreaseFundInAPool(uint256,uint256)";
    assert_eq!(
        parser.extract_property_name(test_line),
        Some("prop_anyoneCanIncreaseFundInAPool".to_string())
    );
}

#[test]
fn test_extract_property_name_no_args() {
    let parser = Parser::new();
    let test_line = "⇾ [FAILED] Assertion Test: FuzzTest.prop_anyoneCanIncreaseFundInAPool()";
    assert_eq!(
        parser.extract_property_name(test_line),
        Some("prop_anyoneCanIncreaseFundInAPool".to_string())
    );
}

#[test]
fn test_extract_property_name_invalid_prop() {
    let parser = Parser::new();
    let test_line = "⇾ [FAILED] Assertion Test: prop_anyoneCanIncreaseFundInAPool()";
    assert_eq!(parser.extract_property_name(test_line), None);
}

#[test]
fn test_generate_unique_test_name() {
    let mut parser = Parser::new();
    let test_line = "prop_anyoneCanIncreaseFundInAPool";

    assert_eq!(
        parser.generate_unique_test_name(test_line.to_string()),
        "test_prop_anyoneCanIncreaseFundInAPool"
    );
}

#[test]
fn test_generate_unique_test_name_multiple() {
    let mut parser = Parser::new();
    let test_line = "prop_anyoneCanIncreaseFundInAPool";
    let _ = parser.generate_unique_test_name(test_line.to_string());

    for i in 0..10 {
        assert_eq!(
            parser.generate_unique_test_name(test_line.to_string()),
            format!("test_prop_anyoneCanIncreaseFundInAPool{}", i + 2)
        );
    }
}

#[test]
fn test_generate_unique_test_name_prop_with_number() {
    let mut parser = Parser::new();
    let test_line = "prop_anyoneCanIncreaseFundInAPool9";

    assert_eq!(
        parser.generate_unique_test_name(test_line.to_string()),
        "test_prop_anyoneCanIncreaseFundInAPool9"
    );

    assert_eq!(
        parser.generate_unique_test_name(test_line.to_string()),
        "test_prop_anyoneCanIncreaseFundInAPool92"
    );
}

#[test]
fn test_add_new_call_to_ast() {
    let mut parser = Parser::new();
    let test_line = "1) FuzzTest.property_canAlwaysCreateRequest(uint256,uint256)(1, 1) (block=43494, time=315910, gas=12500000, gasprice=1, value=0, sender=0x0000000000000000000000000000000000060000)";

    parser.create_new_ast("test".to_string());

    let result = parser.add_new_call_to_ast(test_line.to_string());

    assert!(result.is_ok());
}

#[test]
fn test_add_new_call_to_ast_wrong_cheats() {
    let mut parser = Parser::new();
    let test_line = "1) FuzzTest.property_canAlwaysCreateRequest(uint256,uint256)(1, 1) (block=, time=315910, gas=12500000, gasprice=1, value=0, sender=0x0000000000000000000000000000000000060000)";

    parser.create_new_ast("test".to_string());

    let result = parser.add_new_call_to_ast(test_line.to_string());

    assert_eq!(
        result.unwrap_err().to_string(),
        "failed to parse call context"
    );
}

#[test]
fn test_add_new_call_to_as_wrong_args() {
    let mut parser = Parser::new();
    let test_line = "1) property_canAlwaysCreateRequest(uint256,uint256)(1, 1) (block=43494, time=315910, gas=12500000, gasprice=1, value=0, sender=0x0000000000000000000000000000000000060000)";

    parser.create_new_ast("test".to_string());

    let result = parser.add_new_call_to_ast(test_line.to_string());

    assert_eq!(
        result.unwrap_err().to_string(),
        "failed to extract property to call"
    );
}

#[test]
fn test_parse_medusa_call_arguments() {
    let parser = Parser::new();
    let test_line = "1) property_canAlwaysCreateRequest(uint256,uint256)(1,1) (block=43494, time=315910, gas=12500000, gasprice=1, value=0, sender=0x0000000000000000000000000000000000060000)";

    let result = parser.parse_medusa_call_arguments(test_line);

    assert!(result.is_ok());

    assert_eq!(result.unwrap()[0], "1,1");
}

#[test]
fn test_parse_medusa_call_arguments_tuple() {
    let parser = Parser::new();
    let test_line = "1) property_canAlwaysCreateRequest(uint256,uint256,(address,uint256),address)(1,1,(0x12,1),0x12) (block=43494, time=315910, gas=12500000, gasprice=1, value=0, sender=0x0000000000000000000000000000000000060000)";

    let result = parser.parse_medusa_call_arguments(test_line);

    assert!(result.is_ok());

    assert_eq!(result.unwrap()[0], "1,1,(0x12,1),0x12");
}

#[test]
fn test_parse_medusa_call_arguments_bytes() {
    let parser = Parser::new();
    let test_line = "1) property_canAlwaysCreateRequest(uint256,bytes,(bytes,bytes,bytes),bytes)(1,,(,,),) (block=43494, time=315910, gas=12500000, gasprice=1, value=0, sender=0x0000000000000000000000000000000000060000)";

    let result = parser.parse_medusa_call_arguments(test_line);

    assert!(result.is_ok());

    assert_eq!(result.unwrap()[0], "1,'',('','',''),''");
}

const FAILURE: &str = "⇾ [FAILED] Assertion Test: FuzzTest.prop_X(uint256,uint256)";
const CALL: &str = "1) FuzzTest.prop_X(uint256)(15056796) (block=10429, time=19960, gas=12500000, gasprice=1, value=0, sender=0x0000000000000000000000000000000000050000)";

fn expected_call(block: i32, time: i32, sender: &str, call: Statement) -> Vec<Ast> {
    vec![
        Ast::Statement(Statement::new_roll(block)),
        Ast::Statement(Statement::new_warp(time)),
        Ast::Statement(Statement::new_prank(sender)),
        Ast::Statement(call),
    ]
}

fn pending_children(parser: &Parser) -> &[Ast] {
    match parser.current_ast_root() {
        Some(Ast::FunctionDeclaration(root)) => root.children(),
        _ => panic!("no function declaration is pending"),
    }
}

#[test]
fn identifiers_number_the_failures_of_one_property() {
    let mut parser = Parser::new();
    let mut names = Vec::new();
    for _ in 0..3 {
        assert!(parser.process_line(FAILURE.to_string()).is_ok());
        assert!(parser.process_line("[Execution Trace]".to_string()).is_ok());
    }
    for root in parser.reproducers() {
        match root {
            Ast::FunctionDeclaration(root) => names.push(root.name().to_string()),
            _ => panic!("a root is a function declaration"),
        }
    }
    assert_eq!(names, vec!["test_prop_X", "test_prop_X2", "test_prop_X3"]);
}

#[test]
fn a_fresh_parser_can_count_any_line() {
    let mut parser = Parser::new();
    for line in [FAILURE, CALL, "[Execution Trace]", "[FAILED] nothing", ""] {
        assert!(parser.can_count(line));
        let _ = parser.process_line(line.to_string());
    }
    assert!(parser.can_count(FAILURE));
}

#[test]
fn properties_are_counted_apart() {
    let mut parser = Parser::new();
    assert_eq!(parser.generate_unique_test_name("a".to_string()), "test_a");
    assert_eq!(parser.generate_unique_test_name("b".to_string()), "test_b");
    assert_eq!(parser.generate_unique_test_name("a".to_string()), "test_a2");
    assert_eq!(parser.generate_unique_test_name("a9".to_string()), "test_a9");
    assert_eq!(parser.generate_unique_test_name("b".to_string()), "test_b2");
    assert_eq!(parser.generate_unique_test_name("a".to_string()), "test_a3");
    assert_eq!(parser.generate_unique_test_name("".to_string()), "test_");
    assert_eq!(parser.generate_unique_test_name("".to_string()), "test_2");
}

#[test]
fn a_call_line_expands_to_roll_warp_prank_and_the_call() {
    let mut parser = Parser::new();
    assert!(parser.process_line(FAILURE.to_string()).is_ok());
    assert!(parser.process_line(CALL.to_string()).is_ok());
    let expected = expected_call(
        10429,
        19960,
        "0x0000000000000000000000000000000000050000",
        Statement::new_contract_call(
            Some("this".to_string()),
            "prop_X".to_string(),
            None,
            vec!["15056796".to_string()],
        ),
    );
    assert_eq!(pending_children(&parser), expected.as_slice());
}

#[test]
fn a_second_call_line_is_added_behind_the_first() {
    let mut parser = Parser::new();
    assert!(parser.process_line(FAILURE.to_string()).is_ok());
    assert!(parser.process_line(CALL.to_string()).is_ok());
    assert!(parser
        .process_line(
            "2) FuzzTest.other(uint256,bytes)(7,) (block=2, time=3, value=5, sender=0x1)"
                .to_string()
        )
        .is_ok());
    let children = pending_children(&parser);
    assert_eq!(children.len(), 8);
    let second = expected_call(
        2,
        3,
        "0x1",
        Statement::new_contract_call(
            Some("this".to_string()),
            "other".to_string(),
            Some(Amount::from_u64(5)),
            vec!["7,''".to_string()],
        ),
    );
    assert_eq!(&children[4..], second.as_slice());
}

#[test]
fn the_value_of_a_call_is_read_as_u256_reads_it() {
    let mut parser = Parser::new();
    parser.create_new_ast("t".to_string());
    assert!(parser
        .add_new_call_to_ast("1) F.p()() (block=1, time=2, value=0x1f, sender=s)".to_string())
        .is_ok());
    let children = pending_children(&parser);
    assert_eq!(
        children[3],
        Ast::Statement(Statement::new_contract_call(
            Some("this".to_string()),
            "p".to_string(),
            Some(Amount::from_u64(31)),
            vec!["".to_string()],
        ))
    );
}

#[test]
fn a_failure_line_discards_what_was_pending() {
    let mut parser = Parser::new();
    assert!(parser.process_line(FAILURE.to_string()).is_ok());
    assert!(parser.process_line(CALL.to_string()).is_ok());
    assert!(parser
        .process_line("[FAILED] Assertion Test: FuzzTest.prop_Y()".to_string())
        .is_ok());
    assert_eq!(
        *parser.current_ast_root(),
        Some(Ast::FunctionDeclaration(FunctionDeclaration::new(
            "test_prop_Y"
        )))
    );
    assert!(parser.reproducers().is_empty());
}

#[test]
fn a_failed_failure_line_changes_nothing() {
    let mut parser = Parser::new();
    assert!(parser.process_line(FAILURE.to_string()).is_ok());
    assert!(parser.process_line(CALL.to_string()).is_ok());
    let result = parser.process_line("[FAILED] no name here".to_string());
    assert_eq!(
        result,
        Err(LineError::NewFailure(ParseError::PropertyName))
    );
    assert_eq!(result.unwrap_err().cause().to_string(), "Couldn't parse property name");
    assert_eq!(pending_children(&parser).len(), 4);
    assert_eq!(
        parser.generate_unique_test_name("prop_X".to_string()),
        "test_prop_X2"
    );
}

#[test]
fn a_failed_call_line_adds_nothing() {
    let mut parser = Parser::new();
    assert!(parser.process_line(FAILURE.to_string()).is_ok());
    let result = parser.process_line(
        "1) FuzzTest.prop_X(uint256)(1) (block=1, time=x, value=0, sender=0x1)".to_string(),
    );
    assert_eq!(result, Err(LineError::NewCall(ParseError::CallContext)));
    assert_eq!(
        result.unwrap_err().to_string(),
        "failed to add new call to ast"
    );
    assert!(pending_children(&parser).is_empty());
    let result = parser
        .process_line("1) prop_X(uint256)(1) (block=1, time=2, value=0, sender=0x1)".to_string());
    assert_eq!(result, Err(LineError::NewCall(ParseError::PropertyCall)));
    assert!(pending_children(&parser).is_empty());
}

#[test]
fn a_call_without_a_parent_is_refused() {
    let mut parser = Parser::new();
    let result = parser.add_new_call_to_ast(CALL.to_string());
    assert_eq!(result, Err(ParseError::WrongParent));
    assert_eq!(result.unwrap_err().to_string(), "wrong parent");
    assert_eq!(*parser.current_ast_root(), None);
}

#[test]
fn the_context_is_read_before_the_parent_is_looked_for() {
    let mut parser = Parser::new();
    assert_eq!(
        parser.add_new_call_to_ast("1) F.p()()".to_string()),
        Err(ParseError::CallContext)
    );
    assert_eq!(
        parser.add_new_call_to_ast("1) p()() (block=1, time=2, value=0, sender=s)".to_string()),
        Err(ParseError::PropertyCall)
    );
}

#[test]
fn a_call_line_is_ignored_while_nothing_is_pending() {
    let mut parser = Parser::new();
    assert!(parser.process_line(CALL.to_string()).is_ok());
    assert!(parser.process_line("9) nonsense".to_string()).is_ok());
    assert_eq!(*parser.current_ast_root(), None);
    assert!(parser.get_reproducers().is_none());
}

#[test]
fn a_call_line_may_start_with_spaces() {
    let mut parser = Parser::new();
    assert!(parser.process_line(FAILURE.to_string()).is_ok());
    assert!(parser.process_line(format!("   {}", CALL)).is_ok());
    assert_eq!(pending_children(&parser).len(), 4);
}

#[test]
fn a_line_that_starts_with_no_digit_is_no_call_line() {
    let mut parser = Parser::new();
    assert!(parser.process_line(FAILURE.to_string()).is_ok());
    assert!(parser
        .process_line("x) FuzzTest.prop_X(uint256)(1) (block=1, time=2)".to_string())
        .is_ok());
    assert!(parser.process_line("\t1) broken".to_string()).is_ok());
    assert!(parser.process_line("".to_string()).is_ok());
    assert!(parser.process_line("   ".to_string()).is_ok());
    assert!(pending_children(&parser).is_empty());
}

#[test]
fn the_failure_marker_goes_before_the_others() {
    let mut parser = Parser::new();
    assert!(parser.process_line(FAILURE.to_string()).is_ok());
    assert!(parser
        .process_line("1) [Execution Trace] FAILED FuzzTest.prop_Z(".to_string())
        .is_ok());
    assert_eq!(
        *parser.current_ast_root(),
        Some(Ast::FunctionDeclaration(FunctionDeclaration::new(
            "test_prop_Z"
        )))
    );
    assert!(parser.reproducers().is_empty());
}

#[test]
fn a_terminator_without_a_pending_reproducer_does_nothing() {
    let mut parser = Parser::new();
    assert!(parser.process_line("[Execution Trace]".to_string()).is_ok());
    assert!(parser.reproducers().is_empty());
    assert!(parser.get_reproducers().is_none());
}

#[test]
fn get_reproducers_gives_the_finished_ones() {
    let mut parser = Parser::new();
    assert!(parser.process_line(FAILURE.to_string()).is_ok());
    assert!(parser.process_line("[Execution Trace]".to_string()).is_ok());
    assert!(parser
        .process_line("[FAILED] Assertion Test: FuzzTest.prop_Y()".to_string())
        .is_ok());
    assert_eq!(
        parser.get_reproducers(),
        Some(vec![Ast::FunctionDeclaration(FunctionDeclaration::new(
            "test_prop_X"
        ))])
    );
}

#[test]
fn the_name_ends_at_the_first_parenthesis_after_the_first_dot() {
    let parser = Parser::new();
    assert_eq!(
        parser.extract_property_name("a(b).c.d(e).f(g)"),
        Some("c.d".to_string())
    );
    assert_eq!(parser.extract_property_name("a.("), Some("".to_string()));
    assert_eq!(parser.extract_property_name("a.b"), None);
    assert_eq!(parser.extract_property_name("(a.b"), None);
    assert_eq!(parser.extract_property_name(""), None);
}

#[test]
fn the_context_takes_the_last_of_a_repeated_key() {
    let parser = Parser::new();
    let data = parser
        .parse_cheats_data(
            "1) F.p()() ( block = 1 ,time=2, block=+7,sender = 0xAb ,value=, other, time=-3 )"
                .to_string(),
        )
        .unwrap();
    assert_eq!(data.block_to_roll, 7);
    assert_eq!(data.timestamp_to_warp_to, -3);
    assert_eq!(data.caller_to_prank, "0xAb");
    assert_eq!(data.value, Amount::from_u64(0));
}

#[test]
fn the_context_needs_all_four_keys() {
    let parser = Parser::new();
    let full = "(block=1, time=2, sender=s, value=3)";
    assert!(parser.parse_cheats_data(full.to_string()).is_some());
    for missing in [
        "(time=2, sender=s, value=3)",
        "(block=1, sender=s, value=3)",
        "(block=1, time=2, value=3)",
        "(block=1, time=2, sender=s)",
        "(block=1, time=2, sender=s, value=3",
        "block=1, time=2, sender=s, value=3)",
        ")block=1, time=2, sender=s, value=3(",
        "(block=1 time=2, sender=s, value=3)",
        "(block=2147483648, time=2, sender=s, value=3)",
        "(block=1, time=2, sender=s, value=g)",
        "(Block=1, time=2, sender=s, value=3)",
        "",
    ] {
        assert!(
            parser.parse_cheats_data(missing.to_string()).is_none(),
            "{}",
            missing
        );
    }
}

#[test]
fn the_value_after_the_first_equals_sign_is_kept_whole() {
    let parser = Parser::new();
    let data = parser
        .parse_cheats_data("(block=1, time=2, sender=a=b, value=3)".to_string())
        .unwrap();
    assert_eq!(data.caller_to_prank, "a=b");
}

#[test]
fn a_zero_value_is_not_sent() {
    let parser = Parser::new();
    let line = "1) F.p(uint256)(4) (x)".to_string();
    assert_eq!(
        parser.generate_call_to_medusa_property(line.clone(), Amount::from_u64(0)),
        Ok(Statement::new_contract_call(
            Some("this".to_string()),
            "p".to_string(),
            None,
            vec!["4".to_string()],
        ))
    );
    assert_eq!(
        parser.generate_call_to_medusa_property(line, Amount::from_u64(1)),
        Ok(Statement::new_contract_call(
            Some("this".to_string()),
            "p".to_string(),
            Some(Amount::from_u64(1)),
            vec!["4".to_string()],
        ))
    );
    assert_eq!(
        parser.generate_call_to_medusa_property("p(uint256)(4)".to_string(), Amount::from_u64(1)),
        Err(ParseError::CalledName)
    );
}

#[test]
fn arguments_start_at_the_middle_parenthesis() {
    let parser = Parser::new();
    let arguments = |line: &str| parser.parse_medusa_call_arguments(line).unwrap().remove(0);
    assert_eq!(arguments(""), "");
    assert_eq!(arguments("no parenthesis"), "");
    assert_eq!(arguments("f(1)"), "1");
    assert_eq!(arguments("f(a)(1)"), "1");
    assert_eq!(arguments("f(a)(1) (k=v)"), "1");
    assert_eq!(arguments("f(a)(1)(k=v)"), "1)(k=v");
    assert_eq!(arguments("f(a,(b))(1,(2)) (k=v)"), "1,(2)");
    assert_eq!(arguments("f()(((1,2),3)) (k=v)"), "(1,2),3)");
    assert_eq!(
        arguments(
            "1) F.p(uint256,(uint256,uint256))(1,(2,3)) (block=1, time=2, value=0, sender=0x1)"
        ),
        "1,(2,3)"
    );
    assert_eq!(arguments("f(a)(1, 2) (k=v) (l=w)"), "k=v");
}

#[test]
fn empty_fields_are_filled_in_one_pass_each() {
    let parser = Parser::new();
    let arguments = |line: &str| parser.parse_medusa_call_arguments(line).unwrap().remove(0);
    assert_eq!(arguments("(1,,2)"), "1,'',2");
    assert_eq!(arguments("(1,,,2)"), "1,'',,2");
    assert_eq!(arguments("(1,,,,2)"), "1,'',,'',2");
    assert_eq!(arguments("(1,)"), "1,''");
    assert_eq!(arguments("(,1)"), "'',1");
    assert_eq!(arguments("(,)"), "'',''");
    assert_eq!(arguments("(,,)"), "'','',''");
    assert_eq!(arguments("(,,,)"), "'','',,''");
}
