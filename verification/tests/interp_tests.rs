use ppe_core::ast::BinOp;
use ppe_core::ast::Block;
use ppe_core::ast::Declaration;
use ppe_core::ast::Expression;
use ppe_core::ast::ProcOp;
use ppe_core::ast::Program;
use ppe_core::ast::Statement;
use ppe_core::ast::VarInfo;
use ppe_core::data::IcyBoardData;
use ppe_core::data::Node;
use ppe_core::data::UserRecord;
use ppe_core::errors::Error;
use ppe_core::frame::BlockId;
use ppe_core::frame::StackFrame;
use ppe_core::frame::calc_table;
use ppe_core::interp::ExecutionContext;
use ppe_core::interp::Interpreter;
use ppe_core::interp::delay_ms;
use ppe_core::interp::getuser;
use ppe_core::interp::run;
use ppe_core::io::MemoryIO;
use ppe_core::namemap::NameMap;
use ppe_core::transcode::set_color;
use ppe_core::transcode::transcode;
use ppe_core::values::VariableType;
use ppe_core::values::VariableValue;
use ppe_core::values::get_string;

struct TestCtx {
    out: Vec<u8>,
    diag: Vec<u8>,
    slept_ms: u64,
    cursor: Vec<(i32, i32)>,
}

impl TestCtx {
    fn new() -> Self {
        TestCtx { out: Vec::new(), diag: Vec::new(), slept_ms: 0, cursor: Vec::new() }
    }
}

impl ExecutionContext for TestCtx {
    fn gotoxy(&mut self, x: i32, y: i32) -> Result<(), Error> {
        self.cursor.push((x, y));
        Ok(())
    }

    fn print(&mut self, text: &str) -> Result<(), Error> {
        let rewritten = transcode(text.as_bytes());
        self.out.extend(rewritten);
        Ok(())
    }

    fn write_raw(&mut self, data: &[u8]) -> Result<(), Error> {
        let rewritten = transcode(data);
        self.out.extend(rewritten);
        Ok(())
    }

    fn read(&mut self) -> Result<String, Error> {
        Ok(String::new())
    }

    fn get_char(&mut self) -> Result<Option<char>, Error> {
        Ok(None)
    }

    fn inbytes(&mut self) -> i32 {
        0
    }

    fn set_color(&mut self, color: u8) {
        let escape = set_color(color);
        self.out.extend(escape);
    }

    fn send_to_com(&mut self, _data: &str) -> Result<(), Error> {
        Ok(())
    }

    fn sprint(&mut self, text: &str) -> Result<(), Error> {
        self.diag.extend(text.as_bytes());
        Ok(())
    }

    fn sleep(&mut self, ms: u64) {
        self.slept_ms += ms;
    }
}

fn empty_data() -> IcyBoardData {
    Default::default()
}

fn program(declarations: Vec<Declaration>, statements: Vec<Statement>) -> Program {
    Program {
        main_block: Block { statements },
        declarations,
        procedure_implementations: Vec::new(),
    }
}

fn int_lit(v: i32) -> Expression {
    Expression::Const(VariableValue::Integer(v))
}

fn str_lit(s: &str) -> Expression {
    Expression::Const(VariableValue::Str(s.to_string()))
}

fn ident(name: &str) -> Expression {
    Expression::Identifier(name.to_string())
}

fn declare_int(name: &str) -> Declaration {
    Declaration::Variable(VariableType::Integer, vec![VarInfo::Var0(name.to_string())])
}

fn mprint(e: Expression) -> Statement {
    Statement::Call(ProcOp::MPrint, vec![e])
}

#[test]
fn goto_inc_if_loop_iterates_exactly_three_times() {
    // LET X = 1 / :LOOP / PRINT "@X01@" / INC X / IF (X > 3) GOTO DONE /
    // GOTO LOOP / :DONE / END — three color-printing iterations, then a
    // clean end.
    let prg = program(
        vec![declare_int("X")],
        vec![
            Statement::Let(VarInfo::Var0("X".to_string()), int_lit(1)),
            Statement::Label("LOOP".to_string()),
            mprint(str_lit("@X01@")),
            Statement::Inc("X".to_string()),
            Statement::If(
                Expression::Binary(
                    BinOp::Greater,
                    Box::new(ident("X")),
                    Box::new(int_lit(3)),
                ),
                Box::new(Statement::Goto("DONE".to_string())),
            ),
            Statement::Goto("LOOP".to_string()),
            Statement::Label("DONE".to_string()),
            Statement::End,
        ],
    );
    let mut ctx = TestCtx::new();
    let mut io = MemoryIO::new();
    let result = run(&prg, &mut ctx, &mut io, &empty_data(), 10_000);
    assert_eq!(result, Ok(true));
    let mut expected: Vec<u8> = Vec::new();
    for _ in 0..3 {
        expected.extend(set_color(0x01));
    }
    assert_eq!(ctx.out, expected);
}

#[test]
fn duplicate_labels_send_goto_to_the_last_occurrence() {
    let prg = program(
        vec![],
        vec![
            Statement::Goto("L".to_string()),
            Statement::Label("L".to_string()),
            mprint(str_lit("first")),
            Statement::Label("L".to_string()),
            mprint(str_lit("second")),
            Statement::End,
        ],
    );
    let mut ctx = TestCtx::new();
    let mut io = MemoryIO::new();
    assert_eq!(run(&prg, &mut ctx, &mut io, &empty_data(), 1_000), Ok(true));
    assert_eq!(ctx.out, b"second".to_vec());
}

#[test]
fn calc_table_keeps_the_last_index_of_a_duplicate_label() {
    let block = Block {
        statements: vec![
            Statement::Label("A".to_string()),
            Statement::Comment("x".to_string()),
            Statement::Label("A".to_string()),
            Statement::Label("B".to_string()),
        ],
    };
    let table = calc_table(&block);
    assert_eq!(*table.get(&"A".to_string()).unwrap(), 2);
    assert_eq!(*table.get(&"B".to_string()).unwrap(), 3);
    assert!(table.get(&"C".to_string()).is_none());
}

#[test]
fn gosub_and_return_resume_after_the_call() {
    let prg = program(
        vec![],
        vec![
            Statement::Gosub("SUB".to_string()),
            mprint(str_lit("back")),
            Statement::End,
            Statement::Label("SUB".to_string()),
            mprint(str_lit("inside ")),
            Statement::Return,
        ],
    );
    let mut ctx = TestCtx::new();
    let mut io = MemoryIO::new();
    assert_eq!(run(&prg, &mut ctx, &mut io, &empty_data(), 1_000), Ok(true));
    assert_eq!(ctx.out, b"inside back".to_vec());
}

#[test]
fn goto_unknown_label_is_fatal() {
    let prg = program(vec![], vec![Statement::Goto("NOWHERE".to_string())]);
    let mut ctx = TestCtx::new();
    let mut io = MemoryIO::new();
    let r = run(&prg, &mut ctx, &mut io, &empty_data(), 1_000);
    assert_eq!(r, Err(Error::LabelNotFound("NOWHERE".to_string())));
}

#[test]
fn return_with_empty_stack_is_fatal() {
    let prg = program(vec![], vec![Statement::Return]);
    let mut ctx = TestCtx::new();
    let mut io = MemoryIO::new();
    let r = run(&prg, &mut ctx, &mut io, &empty_data(), 1_000);
    assert_eq!(r, Err(Error::ReturnStackUnderflow));
}

#[test]
fn structured_statements_are_unsupported() {
    let prg = program(vec![], vec![Statement::Break]);
    let mut ctx = TestCtx::new();
    let mut io = MemoryIO::new();
    assert_eq!(run(&prg, &mut ctx, &mut io, &empty_data(), 1_000), Err(Error::NotSupported));
}

#[test]
fn unimplemented_builtin_fails_loudly() {
    let prg = program(vec![], vec![Statement::Call(ProcOp::Shell, vec![])]);
    let mut ctx = TestCtx::new();
    let mut io = MemoryIO::new();
    assert_eq!(run(&prg, &mut ctx, &mut io, &empty_data(), 1_000), Err(Error::NotSupported));
}

#[test]
fn buffer_flushes_are_no_ops() {
    let prg = program(
        vec![],
        vec![
            Statement::Call(ProcOp::KbdFlush, vec![]),
            Statement::Call(ProcOp::MdmFlush, vec![]),
            Statement::Call(ProcOp::KeyFlush, vec![]),
            Statement::End,
        ],
    );
    let mut ctx = TestCtx::new();
    let mut io = MemoryIO::new();
    assert_eq!(run(&prg, &mut ctx, &mut io, &empty_data(), 1_000), Ok(true));
    assert!(ctx.out.is_empty());
}

#[test]
fn if_condition_of_the_wrong_kind_is_fatal() {
    let prg = program(
        vec![],
        vec![Statement::If(str_lit("yes"), Box::new(Statement::End))],
    );
    let mut ctx = TestCtx::new();
    let mut io = MemoryIO::new();
    assert_eq!(run(&prg, &mut ctx, &mut io, &empty_data(), 1_000), Err(Error::TypeMismatch));
}

#[test]
fn undeclared_assignment_target_is_fatal() {
    let prg = program(
        vec![],
        vec![Statement::Let(VarInfo::Var0("Y".to_string()), int_lit(1))],
    );
    let mut ctx = TestCtx::new();
    let mut io = MemoryIO::new();
    let r = run(&prg, &mut ctx, &mut io, &empty_data(), 1_000);
    assert_eq!(r, Err(Error::VariableNotFound("Y".to_string())));
}

#[test]
fn runaway_goto_loop_hits_the_step_budget() {
    let prg = program(
        vec![],
        vec![
            Statement::Label("L".to_string()),
            Statement::Goto("L".to_string()),
        ],
    );
    let mut ctx = TestCtx::new();
    let mut io = MemoryIO::new();
    assert_eq!(run(&prg, &mut ctx, &mut io, &empty_data(), 500), Err(Error::StepLimitReached));
}

#[test]
fn division_by_zero_surfaces_from_an_expression() {
    let prg = program(
        vec![declare_int("X")],
        vec![Statement::Let(
            VarInfo::Var0("X".to_string()),
            Expression::Binary(BinOp::Div, Box::new(int_lit(1)), Box::new(int_lit(0))),
        )],
    );
    let mut ctx = TestCtx::new();
    let mut io = MemoryIO::new();
    assert_eq!(run(&prg, &mut ctx, &mut io, &empty_data(), 1_000), Err(Error::DivisionByZero));
}

#[test]
fn array_store_and_load_use_legacy_one_based_indexing() {
    let decls = vec![Declaration::Variable(
        VariableType::Integer,
        vec![VarInfo::Var1("A".to_string(), Box::new(int_lit(10)))],
    )];
    let prg = program(
        decls,
        vec![
            Statement::Let(
                VarInfo::Var1("A".to_string(), Box::new(int_lit(1))),
                int_lit(77),
            ),
            mprint(Expression::Dim("A".to_string(), vec![int_lit(1)])),
            Statement::End,
        ],
    );
    let mut ctx = TestCtx::new();
    let mut io = MemoryIO::new();
    assert_eq!(run(&prg, &mut ctx, &mut io, &empty_data(), 1_000), Ok(true));
    assert_eq!(ctx.out, b"77".to_vec());
}

#[test]
fn array_index_zero_is_a_fatal_bounds_error() {
    let decls = vec![Declaration::Variable(
        VariableType::Integer,
        vec![VarInfo::Var1("A".to_string(), Box::new(int_lit(10)))],
    )];
    let prg = program(
        decls,
        vec![Statement::Let(
            VarInfo::Var1("A".to_string(), Box::new(int_lit(0))),
            int_lit(5),
        )],
    );
    let mut ctx = TestCtx::new();
    let mut io = MemoryIO::new();
    assert_eq!(
        run(&prg, &mut ctx, &mut io, &empty_data(), 1_000),
        Err(Error::ArrayIndexOutOfBounds(0))
    );
}

#[test]
fn file_builtins_drive_the_channel_provider() {
    // FCREATE 1, "OUT.TXT" / FPUTLN 1, "alpha" / FREWIND / FGET into S /
    // PRINT S — the round trip lands in the terminal output.
    let decls = vec![Declaration::Variable(
        VariableType::Str,
        vec![VarInfo::Var0("S".to_string())],
    )];
    let prg = program(
        decls,
        vec![
            Statement::Call(
                ProcOp::FCreate,
                vec![int_lit(1), str_lit("OUT.TXT"), int_lit(2), int_lit(0)],
            ),
            Statement::Call(ProcOp::FPutLn, vec![int_lit(1), str_lit("alpha")]),
            Statement::Call(ProcOp::FRewind, vec![int_lit(1)]),
            Statement::Call(ProcOp::FGet, vec![int_lit(1), ident("S")]),
            mprint(ident("S")),
            Statement::Call(ProcOp::FClose, vec![int_lit(1)]),
            Statement::End,
        ],
    );
    let mut ctx = TestCtx::new();
    let mut io = MemoryIO::new();
    assert_eq!(run(&prg, &mut ctx, &mut io, &empty_data(), 1_000), Ok(true));
    assert_eq!(ctx.out, b"alpha".to_vec());
}

#[test]
fn ferr_function_reports_a_failed_open() {
    // FOPEN of a missing file, then IF (FERR(1)) PRINT "bad".
    let prg = program(
        vec![],
        vec![
            Statement::Call(
                ProcOp::FOpen,
                vec![int_lit(1), str_lit("ABSENT.TXT"), int_lit(0), int_lit(0)],
            ),
            Statement::If(
                Expression::FuncCall(ppe_core::ast::FuncOp::Ferr, vec![int_lit(1)]),
                Box::new(mprint(str_lit("bad"))),
            ),
            Statement::End,
        ],
    );
    let mut ctx = TestCtx::new();
    let mut io = MemoryIO::new();
    assert_eq!(run(&prg, &mut ctx, &mut io, &empty_data(), 1_000), Ok(true));
    assert_eq!(ctx.out, b"bad".to_vec());
}

#[test]
fn channel_out_of_bounds_is_fatal() {
    let prg = program(
        vec![],
        vec![Statement::Call(
            ProcOp::FOpen,
            vec![int_lit(8), str_lit("X"), int_lit(0), int_lit(0)],
        )],
    );
    let mut ctx = TestCtx::new();
    let mut io = MemoryIO::new();
    assert_eq!(
        run(&prg, &mut ctx, &mut io, &empty_data(), 1_000),
        Err(Error::FileChannelOutOfBounds(8))
    );
}

#[test]
fn fclose_of_the_reserved_sentinel_is_a_no_op() {
    let prg = program(
        vec![],
        vec![
            Statement::Call(ProcOp::FClose, vec![int_lit(-1)]),
            Statement::End,
        ],
    );
    let mut ctx = TestCtx::new();
    let mut io = MemoryIO::new();
    assert_eq!(run(&prg, &mut ctx, &mut io, &empty_data(), 1_000), Ok(true));
}

#[test]
fn procedure_call_runs_in_its_own_frame() {
    let proc_decl = Declaration::Procedure(
        "SHOW".to_string(),
        vec![Declaration::Variable(
            VariableType::Str,
            vec![VarInfo::Var0("MSG".to_string())],
        )],
    );
    let proc_impl = ppe_core::ast::ProcedureImpl {
        declaration: proc_decl,
        block: Block {
            statements: vec![mprint(ident("MSG"))],
        },
    };
    let prg = Program {
        main_block: Block {
            statements: vec![
                Statement::ProcedureCall("SHOW".to_string(), vec![str_lit("hi ")]),
                Statement::ProcedureCall("SHOW".to_string(), vec![str_lit("again")]),
                Statement::End,
            ],
        },
        declarations: vec![],
        procedure_implementations: vec![proc_impl],
    };
    let mut ctx = TestCtx::new();
    let mut io = MemoryIO::new();
    assert_eq!(run(&prg, &mut ctx, &mut io, &empty_data(), 1_000), Ok(true));
    assert_eq!(ctx.out, b"hi again".to_vec());
}

#[test]
fn unknown_procedure_is_fatal() {
    let prg = program(
        vec![],
        vec![Statement::ProcedureCall("MISSING".to_string(), vec![])],
    );
    let mut ctx = TestCtx::new();
    let mut io = MemoryIO::new();
    assert_eq!(
        run(&prg, &mut ctx, &mut io, &empty_data(), 1_000),
        Err(Error::ProcedureNotFound("MISSING".to_string()))
    );
}

fn sample_user() -> UserRecord {
    let mut u: UserRecord = Default::default();
    u.city = "Springfield".to_string();
    u.password = "swordfish".to_string();
    u.security_level = 30;
    u.page_len = 23;
    u.scroll_flag = true;
    u
}

fn fresh_interpreter(users: Vec<UserRecord>) -> Interpreter {
    let mut data = IcyBoardData::default();
    data.users = users;
    Interpreter {
        cur_frame: vec![StackFrame {
            values: NameMap::new(),
            gosub_stack: Vec::new(),
            cur_ptr: 0,
            label_table: NameMap::new(),
            block_id: BlockId::Main,
        }],
        is_running: true,
        icb_data: data,
        cur_user: 0,
        current_user: None,
        pcb_node: None,
        cur_tokens: Vec::new(),
    }
}

fn mirrored_snapshot(interp: &Interpreter) -> Vec<String> {
    let names = ["U_PAGELEN", "U_PWD", "U_PWDEXP", "U_SCROLL", "U_SEC", "U_CITY"];
    let frame = &interp.cur_frame[0];
    let mut snapshot = Vec::new();
    for name in names {
        let value = frame.values.get(&name.to_string()).unwrap();
        snapshot.push(get_string(value));
    }
    snapshot
}

#[test]
fn getuser_twice_mirrors_identical_variables() {
    let mut interp = fresh_interpreter(vec![sample_user()]);
    getuser(&mut interp).unwrap();
    let first = mirrored_snapshot(&interp);
    getuser(&mut interp).unwrap();
    let second = mirrored_snapshot(&interp);
    assert_eq!(first, second);
    assert_eq!(first[5].as_str(), "Springfield");
    assert_eq!(first[0].as_str(), "23");
    assert_eq!(first[3].as_str(), "1");
}

#[test]
fn getuser_with_an_empty_user_table_is_fatal() {
    let mut interp = fresh_interpreter(vec![]);
    let r = getuser(&mut interp);
    assert_eq!(r, Err(Error::UserIndexOutOfBounds(0)));
}

#[test]
fn putuser_writes_the_scratch_slot_back() {
    let prg = program(
        vec![],
        vec![
            Statement::Call(ProcOp::GetUser, vec![]),
            Statement::Call(ProcOp::PutUser, vec![]),
            Statement::End,
        ],
    );
    let mut ctx = TestCtx::new();
    let mut io = MemoryIO::new();
    let mut data = IcyBoardData::default();
    data.users = vec![sample_user()];
    assert_eq!(run(&prg, &mut ctx, &mut io, &data, 1_000), Ok(true));
}

#[test]
fn node_table_write_and_read() {
    let prg = program(
        vec![],
        vec![
            Statement::Call(
                ProcOp::WrUnet,
                vec![
                    int_lit(0),
                    str_lit("A"),
                    str_lit("caller"),
                    str_lit("metropolis"),
                    str_lit("chatting"),
                    str_lit(""),
                ],
            ),
            Statement::Call(ProcOp::RdUnet, vec![int_lit(0)]),
            Statement::End,
        ],
    );
    let mut ctx = TestCtx::new();
    let mut io = MemoryIO::new();
    let mut data = IcyBoardData::default();
    data.nodes = vec![Node::default()];
    assert_eq!(run(&prg, &mut ctx, &mut io, &data, 1_000), Ok(true));
}

#[test]
fn node_index_out_of_bounds_is_fatal() {
    let prg = program(
        vec![],
        vec![Statement::Call(ProcOp::RdUnet, vec![int_lit(3)])],
    );
    let mut ctx = TestCtx::new();
    let mut io = MemoryIO::new();
    assert_eq!(
        run(&prg, &mut ctx, &mut io, &empty_data(), 1_000),
        Err(Error::NodeIndexOutOfBounds(3))
    );
}

#[test]
fn wrong_argument_count_is_fatal() {
    let prg = program(vec![], vec![Statement::Call(ProcOp::Delay, vec![])]);
    let mut ctx = TestCtx::new();
    let mut io = MemoryIO::new();
    assert_eq!(
        run(&prg, &mut ctx, &mut io, &empty_data(), 1_000),
        Err(Error::WrongParameterCount)
    );
}

#[test]
fn delay_asks_the_host_to_sleep() {
    let prg = program(
        vec![],
        vec![
            Statement::Call(ProcOp::Delay, vec![int_lit(18)]),
            Statement::Call(ProcOp::Delay, vec![int_lit(0)]),
            Statement::Call(ProcOp::Delay, vec![int_lit(-4)]),
            Statement::End,
        ],
    );
    let mut ctx = TestCtx::new();
    let mut io = MemoryIO::new();
    assert_eq!(run(&prg, &mut ctx, &mut io, &empty_data(), 1_000), Ok(true));
    assert_eq!(ctx.slept_ms, 990);
}

#[test]
fn delay_ms_follows_the_legacy_tick() {
    assert_eq!(delay_ms(18), 990);
    assert_eq!(delay_ms(1), 55);
    assert_eq!(delay_ms(0), 0);
    assert_eq!(delay_ms(-1), 0);
    assert_eq!(delay_ms(182), 10_000);
}

#[test]
fn ansipos_converts_to_zero_based_coordinates() {
    let prg = program(
        vec![],
        vec![
            Statement::Call(ProcOp::AnsiPos, vec![int_lit(10), int_lit(5)]),
            Statement::End,
        ],
    );
    let mut ctx = TestCtx::new();
    let mut io = MemoryIO::new();
    assert_eq!(run(&prg, &mut ctx, &mut io, &empty_data(), 1_000), Ok(true));
    assert_eq!(ctx.cursor, vec![(9, 4)]);
}

#[test]
fn sprint_goes_to_the_diagnostic_stream() {
    let prg = program(
        vec![],
        vec![
            Statement::Call(ProcOp::SPrintLn, vec![str_lit("note")]),
            Statement::End,
        ],
    );
    let mut ctx = TestCtx::new();
    let mut io = MemoryIO::new();
    assert_eq!(run(&prg, &mut ctx, &mut io, &empty_data(), 1_000), Ok(true));
    assert_eq!(ctx.diag, b"note\n".to_vec());
    assert!(ctx.out.is_empty());
}

#[test]
fn end_in_the_middle_stops_the_main_block() {
    let prg = program(
        vec![],
        vec![
            mprint(str_lit("a")),
            Statement::End,
            mprint(str_lit("b")),
        ],
    );
    let mut ctx = TestCtx::new();
    let mut io = MemoryIO::new();
    assert_eq!(run(&prg, &mut ctx, &mut io, &empty_data(), 1_000), Ok(true));
    assert_eq!(ctx.out, b"a".to_vec());
}

#[test]
fn dec_and_string_let_follow_the_coercions() {
    let decls = vec![
        declare_int("N"),
        Declaration::Variable(VariableType::Str, vec![VarInfo::Var0("S".to_string())]),
    ];
    let prg = program(
        decls,
        vec![
            Statement::Let(VarInfo::Var0("N".to_string()), int_lit(5)),
            Statement::Dec("N".to_string()),
            Statement::Let(VarInfo::Var0("S".to_string()), ident("N")),
            mprint(ident("S")),
            Statement::End,
        ],
    );
    let mut ctx = TestCtx::new();
    let mut io = MemoryIO::new();
    assert_eq!(run(&prg, &mut ctx, &mut io, &empty_data(), 1_000), Ok(true));
    assert_eq!(ctx.out, b"4".to_vec());
}

#[test]
fn non_integer_builtin_argument_is_a_parameter_error() {
    let prg = program(
        vec![],
        vec![Statement::Call(ProcOp::Delay, vec![str_lit("soon")])],
    );
    let mut ctx = TestCtx::new();
    let mut io = MemoryIO::new();
    assert_eq!(
        run(&prg, &mut ctx, &mut io, &empty_data(), 1_000),
        Err(Error::ParameterIntegerExpected(0))
    );
}

#[test]
fn fget_destination_must_be_a_variable() {
    let prg = program(
        vec![],
        vec![Statement::Call(ProcOp::FGet, vec![int_lit(1), str_lit("S")])],
    );
    let mut ctx = TestCtx::new();
    let mut io = MemoryIO::new();
    assert_eq!(
        run(&prg, &mut ctx, &mut io, &empty_data(), 1_000),
        Err(Error::ParameterStringExpected(1))
    );
}

#[test]
fn unsupported_declaration_kinds_fail_at_startup() {
    let prg = program(
        vec![Declaration::Variable(
            VariableType::Unknown,
            vec![VarInfo::Var0("Q".to_string())],
        )],
        vec![Statement::End],
    );
    let mut ctx = TestCtx::new();
    let mut io = MemoryIO::new();
    assert_eq!(run(&prg, &mut ctx, &mut io, &empty_data(), 1_000), Err(Error::NotSupported));
}

#[test]
fn empty_program_completes_immediately() {
    let prg = program(vec![], vec![]);
    let mut ctx = TestCtx::new();
    let mut io = MemoryIO::new();
    assert_eq!(run(&prg, &mut ctx, &mut io, &empty_data(), 1), Ok(true));
    assert_eq!(run(&prg, &mut ctx, &mut io, &empty_data(), 0), Err(Error::StepLimitReached));
}
