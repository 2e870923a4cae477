use car_logger::pid_formula::{compile, raw_value, Formula, FormulaError, Op};

fn ops(f: &Formula) -> (Vec<Op>, Option<FormulaError>) {
    match f {
        Formula::Program { ops, end } => (ops.clone(), *end),
        Formula::Raw => panic!("not a program"),
    }
}

#[test]
fn rpm_formula_compiles_in_evaluation_order() {
    let f = compile("((A * 256) + B) / 4", 2).unwrap();
    let (program, end) = ops(&f);
    assert_eq!(end, None);
    assert_eq!(
        program,
        vec![
            Op::Byte(0),
            Op::Number { start: 6, end: 9 },
            Op::Mul,
            Op::Byte(1),
            Op::Add,
            Op::Number { start: 18, end: 19 },
            Op::Div,
        ]
    );
}

#[test]
fn shifts_and_bit_operators_bind_as_in_c() {
    let (program, end) = ops(&compile("(A << 8) | B", 2).unwrap());
    assert_eq!(end, None);
    assert_eq!(
        program,
        vec![Op::Byte(0), Op::Number { start: 6, end: 7 }, Op::Shl, Op::Byte(1), Op::Or]
    );
    let (program, _) = ops(&compile("-~a", 1).unwrap());
    assert_eq!(program, vec![Op::Byte(0), Op::Not, Op::Neg]);
}

#[test]
fn errors_are_located() {
    assert_eq!(compile("   ", 1), Err(FormulaError::Empty));
    assert_eq!(ops(&compile("B + 1", 1).unwrap()).1, Some(FormulaError::MissingByte('B')));
    assert_eq!(ops(&compile("1..2", 1).unwrap()).1, Some(FormulaError::Syntax(0)));
    assert_eq!(ops(&compile("system('rm')", 1).unwrap()).1, Some(FormulaError::Syntax(0)));
    assert_eq!(ops(&compile("(A", 1).unwrap()).1, Some(FormulaError::Syntax(2)));
    assert_eq!(ops(&compile("A B", 2).unwrap()).1, Some(FormulaError::Syntax(2)));
}

#[test]
fn operations_before_an_error_are_kept() {
    let (program, end) = ops(&compile("A / 0 + B", 1).unwrap());
    assert_eq!(program, vec![Op::Byte(0), Op::Number { start: 4, end: 5 }, Op::Div]);
    assert_eq!(end, Some(FormulaError::MissingByte('B')));
}

#[test]
fn raw_reads_big_endian_and_ignores_case() {
    assert_eq!(compile(" RaW ", 0), Ok(Formula::Raw));
    assert_eq!(raw_value(&[0x12, 0x34]), 0x1234);
    assert_eq!(raw_value(&[]), 0);
    assert_eq!(raw_value(&[1, 2, 3, 4, 5, 6, 7, 8, 9]), 0x0203040506070809);
}

#[test]
fn error_messages_spell_out_the_details() {
    assert_eq!(FormulaError::Syntax(12).message(), "invalid syntax at byte 12");
    assert_eq!(FormulaError::MissingByte('C').message(), "response byte C is not available");
    assert_eq!(FormulaError::Empty.message(), "empty formula");
    assert_eq!(FormulaError::DivisionByZero.message(), "division by zero");
    assert_eq!(FormulaError::NonFinite.message(), "non-finite result");
}
