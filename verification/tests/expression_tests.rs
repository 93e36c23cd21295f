use ppe_core::ast::BinOp;
use ppe_core::ast::Expression;
use ppe_core::ast::FuncOp;
use ppe_core::ast::UnaryOp;
use ppe_core::data::IcyBoardData;
use ppe_core::errors::Error;
use ppe_core::frame::BlockId;
use ppe_core::frame::StackFrame;
use ppe_core::interp::Interpreter;
use ppe_core::interp::evaluate_exp;
use ppe_core::interp::tokenize;
use ppe_core::io::MemoryIO;
use ppe_core::namemap::NameMap;
use ppe_core::values::VariableValue;
use ppe_core::values::get_int;
use ppe_core::values::get_string;

fn interpreter() -> Interpreter {
    Interpreter {
        cur_frame: vec![StackFrame {
            values: NameMap::new(),
            gosub_stack: Vec::new(),
            cur_ptr: 0,
            label_table: NameMap::new(),
            block_id: BlockId::Main,
        }],
        is_running: true,
        icb_data: IcyBoardData::default(),
        cur_user: 0,
        current_user: None,
        pcb_node: None,
        cur_tokens: Vec::new(),
    }
}

fn iv(v: i32) -> Expression {
    Expression::Const(VariableValue::Integer(v))
}

fn eval(e: &Expression) -> Result<VariableValue, Error> {
    let interp = interpreter();
    let io = MemoryIO::new();
    evaluate_exp(&interp, &io, e)
}

fn eval_int(e: &Expression) -> i32 {
    get_int(&eval(e).unwrap()).unwrap()
}

#[test]
fn literals_and_parentheses() {
    assert_eq!(eval_int(&iv(12)), 12);
    assert_eq!(eval_int(&Expression::Parens(Box::new(iv(-3)))), -3);
}

#[test]
fn unary_operators() {
    assert_eq!(eval_int(&Expression::Unary(UnaryOp::Minus, Box::new(iv(5)))), -5);
    assert_eq!(eval_int(&Expression::Unary(UnaryOp::Plus, Box::new(iv(5)))), 5);
    let not_true = Expression::Unary(UnaryOp::Not, Box::new(iv(1)));
    assert!(matches!(eval(&not_true).unwrap(), VariableValue::Boolean(false)));
}

#[test]
fn logical_operators_use_the_true_sentinel() {
    let and = Expression::Binary(BinOp::And, Box::new(iv(1)), Box::new(iv(1)));
    assert!(matches!(eval(&and).unwrap(), VariableValue::Boolean(true)));
    // An integer other than the sentinel counts as false.
    let and2 = Expression::Binary(BinOp::And, Box::new(iv(1)), Box::new(iv(2)));
    assert!(matches!(eval(&and2).unwrap(), VariableValue::Boolean(false)));
    let or = Expression::Binary(BinOp::Or, Box::new(iv(0)), Box::new(iv(1)));
    assert!(matches!(eval(&or).unwrap(), VariableValue::Boolean(true)));
}

#[test]
fn comparison_operators() {
    let le = Expression::Binary(BinOp::LowerEq, Box::new(iv(3)), Box::new(iv(3)));
    assert!(matches!(eval(&le).unwrap(), VariableValue::Boolean(true)));
    let ne = Expression::Binary(BinOp::NotEq, Box::new(iv(3)), Box::new(iv(4)));
    assert!(matches!(eval(&ne).unwrap(), VariableValue::Boolean(true)));
}

#[test]
fn power_operator_is_unsupported() {
    let pow = Expression::Binary(BinOp::PoW, Box::new(iv(2)), Box::new(iv(8)));
    assert_eq!(eval(&pow).unwrap_err(), Error::NotSupported);
}

#[test]
fn abs_and_len_functions() {
    let abs = Expression::FuncCall(FuncOp::Abs, vec![iv(-9)]);
    assert_eq!(eval_int(&abs), 9);
    let len = Expression::FuncCall(
        FuncOp::Len,
        vec![Expression::Const(VariableValue::Str("hello".to_string()))],
    );
    assert_eq!(eval_int(&len), 5);
    let len_of_number = Expression::FuncCall(FuncOp::Len, vec![iv(-120)]);
    assert_eq!(eval_int(&len_of_number), 4);
}

#[test]
fn unknown_function_is_unsupported() {
    let call = Expression::FuncCall(FuncOp::Random, vec![iv(10)]);
    assert_eq!(eval(&call).unwrap_err(), Error::NotSupported);
}

#[test]
fn unresolved_identifier_is_fatal() {
    let e = Expression::Identifier("GHOST".to_string());
    assert_eq!(eval(&e).unwrap_err(), Error::VariableNotFound("GHOST".to_string()));
}

#[test]
fn identifiers_resolve_through_the_innermost_frame() {
    let mut interp = interpreter();
    interp.cur_frame[0]
        .values
        .insert("N".to_string(), VariableValue::Integer(41));
    let io = MemoryIO::new();
    let v = evaluate_exp(&interp, &io, &Expression::Identifier("N".to_string())).unwrap();
    assert_eq!(get_int(&v).unwrap(), 41);
}

#[test]
fn tokenize_splits_on_blanks_and_semicolons() {
    let mut interp = interpreter();
    tokenize(&mut interp, &"list;files all".to_string());
    let tokens: Vec<String> = interp.cur_tokens.iter().map(|t| t.clone()).collect();
    assert_eq!(tokens, vec!["list".to_string(), "files".to_string(), "all".to_string()]);
}

#[test]
fn tokenize_keeps_empty_pieces() {
    let mut interp = interpreter();
    tokenize(&mut interp, &";a;".to_string());
    let tokens: Vec<String> = interp.cur_tokens.iter().map(|t| t.clone()).collect();
    assert_eq!(tokens, vec![String::new(), "a".to_string(), String::new()]);
}

#[test]
fn string_rendering_of_expression_results() {
    let sum = Expression::Binary(
        BinOp::Add,
        Box::new(Expression::Const(VariableValue::Str("total: ".to_string()))),
        Box::new(iv(7)),
    );
    assert_eq!(get_string(&eval(&sum).unwrap()).as_str(), "total: 7");
}
