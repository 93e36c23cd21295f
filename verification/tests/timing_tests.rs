use std::time::Duration;
use std::time::Instant;

use ppe_core::ast::Block;
use ppe_core::ast::Expression;
use ppe_core::ast::ProcOp;
use ppe_core::ast::Program;
use ppe_core::ast::Statement;
use ppe_core::data::IcyBoardData;
use ppe_core::errors::Error;
use ppe_core::interp::ExecutionContext;
use ppe_core::interp::run;
use ppe_core::io::MemoryIO;
use ppe_core::values::VariableValue;

struct BlockingCtx;

impl ExecutionContext for BlockingCtx {
    fn gotoxy(&mut self, _x: i32, _y: i32) -> Result<(), Error> {
        Ok(())
    }

    fn print(&mut self, _text: &str) -> Result<(), Error> {
        Ok(())
    }

    fn write_raw(&mut self, _data: &[u8]) -> Result<(), Error> {
        Ok(())
    }

    fn read(&mut self) -> Result<String, Error> {
        Ok(String::new())
    }

    fn get_char(&mut self) -> Result<Option<char>, Error> {
        Ok(None)
    }

    fn inbytes(&mut self) -> i32 {
        0
    }

    fn set_color(&mut self, _color: u8) {}

    fn send_to_com(&mut self, _data: &str) -> Result<(), Error> {
        Ok(())
    }

    fn sprint(&mut self, _text: &str) -> Result<(), Error> {
        Ok(())
    }

    fn sleep(&mut self, ms: u64) {
        let start = Instant::now();
        let target = Duration::from_millis(ms);
        while start.elapsed() < target {
            std::hint::spin_loop();
        }
    }
}

#[test]
fn delay_of_eighteen_ticks_blocks_for_about_a_second() {
    // 18 ticks at 1000/18.2 ms per tick, rounded up to whole milliseconds,
    // is 990 ms; allow the wall clock a tolerant margin.
    let prg = Program {
        main_block: Block {
            statements: vec![
                Statement::Call(
                    ProcOp::Delay,
                    vec![Expression::Const(VariableValue::Integer(18))],
                ),
                Statement::End,
            ],
        },
        declarations: vec![],
        procedure_implementations: vec![],
    };
    let mut ctx = BlockingCtx;
    let mut io = MemoryIO::new();
    let started = Instant::now();
    assert_eq!(run(&prg, &mut ctx, &mut io, &IcyBoardData::default(), 100), Ok(true));
    let elapsed = started.elapsed();
    assert!(elapsed >= Duration::from_millis(985), "blocked only {:?}", elapsed);
    assert!(elapsed <= Duration::from_millis(1100), "blocked {:?}", elapsed);
}
