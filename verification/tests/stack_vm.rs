use cgroup_bandwidth_limit::stack_vm::{
    build_commands, check, describe_fault, divide, ex_add, ex_div, ex_jmp, ex_jnz, ex_jz, ex_load, ex_mul, ex_pop,
    ex_print, ex_push, ex_sub, ex_top, execute, program_lines, step, Command, Fault, Progress,
    VMState,
};

fn state(ip: usize, reg: i32, stack: &[i32]) -> VMState {
    VMState { ip, reg, stack: stack.to_vec() }
}

fn parts(s: &VMState) -> (usize, i32, Vec<i32>) {
    (s.ip, s.reg, s.stack.clone())
}

#[test]
fn a_new_machine_is_empty() {
    assert_eq!(parts(&VMState::new()), (0, 0, vec![]));
}

#[test]
fn instructions_do_what_they_say() {
    let mut s = state(3, 7, &[1, 2]);
    ex_push(None, &mut s);
    assert_eq!(parts(&s), (4, 7, vec![1, 2, 7]));
    ex_pop(None, &mut s);
    assert_eq!(parts(&s), (5, 7, vec![1, 2]));
    ex_pop(None, &mut s);
    assert_eq!(parts(&s), (6, 2, vec![1]));
    ex_load(Some("-40"), &mut s);
    assert_eq!(parts(&s), (7, 2, vec![1, -40]));
    ex_add(None, &mut s);
    assert_eq!(parts(&s), (8, -38, vec![1]));
    ex_load(Some("10"), &mut s);
    ex_sub(None, &mut s);
    assert_eq!(parts(&s), (10, 48, vec![1]));
    ex_load(Some("-100"), &mut s);
    ex_div(None, &mut s);
    assert_eq!(parts(&s), (12, -2, vec![1]));
    ex_load(Some("21"), &mut s);
    ex_mul(None, &mut s);
    assert_eq!(parts(&s), (14, -42, vec![1]));
    assert_eq!(ex_print(None, &mut s), -42);
    assert_eq!(parts(&s), (15, -42, vec![1]));
}

#[test]
fn top_reads_the_first_value_of_the_stack() {
    let mut s = state(0, 0, &[5, 6, 7]);
    ex_top(None, &mut s);
    assert_eq!(parts(&s), (1, 5, vec![5, 6, 7]));
}

#[test]
fn jumps() {
    let mut s = state(4, 0, &[9]);
    ex_jmp(Some("17"), &mut s);
    assert_eq!(parts(&s), (17, 0, vec![9]));
    ex_jz(Some("2"), &mut s);
    assert_eq!(s.ip, 2);
    ex_jnz(Some("8"), &mut s);
    assert_eq!(s.ip, 3);
    s.reg = 1;
    ex_jz(Some("2"), &mut s);
    assert_eq!(s.ip, 4);
    ex_jnz(Some("8"), &mut s);
    assert_eq!(s.ip, 8);
    assert_eq!(parts(&s), (8, 1, vec![9]));
}

#[test]
fn division_rounds_towards_zero() {
    for a in [-9i32, -8, -7, -1, 0, 1, 7, 8, 9, i32::MAX, i32::MIN + 1, i32::MIN] {
        for b in [-3i32, -2, -1, 1, 2, 3, i32::MAX, i32::MIN] {
            if a == i32::MIN && b == -1 {
                continue;
            }
            assert_eq!(divide(a, b), a / b, "{} / {}", a, b);
        }
    }
}

#[test]
fn faults_are_found_before_anything_changes() {
    let cases: Vec<(Command, Option<&str>, VMState, Fault)> = vec![
        (Command::Pop, None, state(0, 1, &[]), Fault::EmptyStack),
        (Command::Top, None, state(0, 1, &[]), Fault::EmptyStack),
        (Command::Add, None, state(0, 1, &[]), Fault::EmptyStack),
        (Command::Sub, None, state(0, 1, &[]), Fault::EmptyStack),
        (Command::Mul, None, state(0, 1, &[]), Fault::EmptyStack),
        (Command::Div, None, state(0, 1, &[]), Fault::EmptyStack),
        (Command::Add, None, state(0, i32::MAX, &[1]), Fault::Overflow),
        (Command::Add, None, state(0, i32::MIN, &[-1]), Fault::Overflow),
        (Command::Sub, None, state(0, 1, &[i32::MIN]), Fault::Overflow),
        (Command::Sub, None, state(0, -1, &[i32::MAX]), Fault::Overflow),
        (Command::Mul, None, state(0, 65536, &[32768]), Fault::Overflow),
        (Command::Mul, None, state(0, i32::MIN, &[-1]), Fault::Overflow),
        (Command::Div, None, state(0, 0, &[5]), Fault::DivisionByZero),
        (Command::Div, None, state(0, -1, &[i32::MIN]), Fault::Overflow),
        (Command::Load, None, state(0, 0, &[]), Fault::MissingArgument),
        (Command::Load, Some("x"), state(0, 0, &[]), Fault::InvalidArgument),
        (Command::Load, Some("2147483648"), state(0, 0, &[]), Fault::InvalidArgument),
        (Command::Jmp, None, state(0, 0, &[]), Fault::MissingArgument),
        (Command::Jmp, Some("-1"), state(0, 0, &[]), Fault::InvalidArgument),
        (Command::Jz, None, state(0, 0, &[]), Fault::MissingArgument),
        (Command::Jz, Some("z"), state(0, 1, &[]), Fault::InvalidArgument),
        (Command::Jnz, None, state(0, 0, &[]), Fault::MissingArgument),
        (Command::Jnz, Some(""), state(0, 0, &[]), Fault::InvalidArgument),
    ];
    for (command, arg, mut s, fault) in cases {
        let before = parts(&s);
        assert_eq!(check(command, arg, &s), Some(fault), "{:?} {:?}", command, arg);
        assert_eq!(execute(command, arg, &mut s), Err(fault), "{:?} {:?}", command, arg);
        assert_eq!(parts(&s), before);
    }
}

#[test]
fn results_at_the_edge_of_the_register_are_no_faults() {
    let mut s = state(0, i32::MAX - 1, &[1]);
    assert_eq!(execute(Command::Add, None, &mut s), Ok(None));
    assert_eq!(s.reg, i32::MAX);
    let mut s = state(0, 1, &[i32::MIN + 1]);
    assert_eq!(execute(Command::Sub, None, &mut s), Ok(None));
    assert_eq!(s.reg, i32::MIN);
    let mut s = state(0, -32768, &[65536]);
    assert_eq!(execute(Command::Mul, None, &mut s), Ok(None));
    assert_eq!(s.reg, i32::MIN);
    let mut s = state(0, 1, &[i32::MIN]);
    assert_eq!(execute(Command::Div, None, &mut s), Ok(None));
    assert_eq!(s.reg, i32::MIN);
    let mut s = state(0, 5, &[]);
    assert_eq!(execute(Command::Print, Some("ignored"), &mut s), Ok(Some(5)));
    assert_eq!(parts(&s), (1, 5, vec![]));
}

#[test]
fn the_instruction_set_has_twelve_instructions() {
    let commands = build_commands();
    assert_eq!(commands.len(), 12);
    let expected = [
        ("PUSH", Command::Push),
        ("POP", Command::Pop),
        ("TOP", Command::Top),
        ("ADD", Command::Add),
        ("SUB", Command::Sub),
        ("DIV", Command::Div),
        ("MUL", Command::Mul),
        ("LOAD", Command::Load),
        ("JMP", Command::Jmp),
        ("JZ", Command::Jz),
        ("JNZ", Command::Jnz),
        ("PRINT", Command::Print),
    ];
    for (name, command) in expected {
        assert_eq!(commands.get(name), Some(&command));
    }
    assert_eq!(commands.get("push"), None);
    assert_eq!(commands.get("NOP"), None);
    assert_eq!(commands.get(""), None);
}

#[test]
fn program_text_is_parted_into_lines_in_capitals() {
    assert_eq!(
        program_lines("\n  load 3\nPush\n\nprint  \n\n"),
        vec!["LOAD 3", "PUSH", "", "PRINT"]
    );
    assert_eq!(program_lines(""), vec![""]);
    let text = "load 1\r\nprint";
    let expected: Vec<String> = text.trim().split("\n").map(|x| x.to_ascii_uppercase()).collect();
    assert_eq!(program_lines(text), expected);
}

fn run(text: &str, limit: usize) -> (Vec<i32>, Result<(), Fault>, VMState) {
    let commands = build_commands();
    let program = program_lines(text);
    let mut s = VMState::new();
    let mut printed = Vec::new();
    for _ in 0..limit {
        match step(&commands, &program, &mut s) {
            Ok(Progress::Halted) => return (printed, Ok(()), s),
            Ok(Progress::Ran(Some(n))) => printed.push(n),
            Ok(Progress::Ran(None)) => {}
            Err(fault) => return (printed, Err(fault), s),
        }
    }
    panic!("the program did not halt within {} steps", limit);
}

#[test]
fn a_program_that_counts_down() {
    // reg counts from 3 down to 1, printing each value.
    let text = "load 3\npop\nprint\nload -1\nadd\njnz 2\n";
    let (printed, result, s) = run(text, 1000);
    assert_eq!(result, Ok(()));
    assert_eq!(printed, vec![3, 2, 1]);
    assert_eq!(s.ip, 6);
    assert_eq!(s.reg, 0);
    assert!(s.stack.is_empty());
}

#[test]
fn a_program_that_faults() {
    let (printed, result, s) = run("load 4\npop\nprint\npop\nprint", 100);
    assert_eq!(printed, vec![4]);
    assert_eq!(result, Err(Fault::EmptyStack));
    assert_eq!(s.ip, 3);
    let (_, result, s) = run("load 4\nfrobnicate 3", 100);
    assert_eq!(result, Err(Fault::InvalidInstruction));
    assert_eq!(s.ip, 1);
    let (_, result, _) = run("load 4\n\nprint", 100);
    assert_eq!(result, Err(Fault::EmptyLine));
    let (_, result, _) = run("load", 100);
    assert_eq!(result, Err(Fault::MissingArgument));
    let (_, result, _) = run("jmp 1 2\nload x", 100);
    assert_eq!(result, Err(Fault::InvalidArgument));
    let (_, result, _) = run("load 0\npush\ndiv", 100);
    assert_eq!(result, Err(Fault::DivisionByZero));
    let (_, result, _) = run("load 2147483647\npop\npush\nadd", 100);
    assert_eq!(result, Err(Fault::Overflow));
}

#[test]
fn a_jump_behind_the_program_halts_it() {
    let (printed, result, s) = run("jmp 99\nprint", 100);
    assert_eq!(result, Ok(()));
    assert!(printed.is_empty());
    assert_eq!(s.ip, 99);
    let commands = build_commands();
    let program = program_lines("print");
    let mut s = VMState { ip: usize::MAX, reg: 0, stack: vec![] };
    assert_eq!(step(&commands, &program, &mut s), Ok(Progress::Halted));
}

#[test]
fn faults_are_described() {
    assert_eq!(
        describe_fault(Fault::EmptyStack, "POP", 3),
        "[POP:3] Tried to pop from empty stack!"
    );
    assert_eq!(describe_fault(Fault::EmptyStack, "TOP", 0), "[TOP:0] Tried to peek empty stack!");
    assert_eq!(
        describe_fault(Fault::EmptyStack, "  ADD  ", 12),
        "[ADD:12] Tried to pop from empty stack!"
    );
    assert_eq!(
        describe_fault(Fault::MissingArgument, "LOAD", 7),
        "[LOAD:7] Requires one int argument!"
    );
    assert_eq!(
        describe_fault(Fault::MissingArgument, "JMP", 7),
        "[JMP:7] Requires one uint argument!"
    );
    assert_eq!(describe_fault(Fault::MissingArgument, "JZ", 7), "[JZ:7] Requires one int argument!");
    assert_eq!(
        describe_fault(Fault::InvalidArgument, "LOAD 1X 5", 100),
        "[LOAD:100] Could not parse '1X'"
    );
    assert_eq!(
        describe_fault(Fault::InvalidInstruction, "FROB 1", 4),
        "Invalid instruction at line 4: 'FROB'"
    );
    assert_eq!(describe_fault(Fault::EmptyLine, "   ", 9), "Empty instruction at line 9");
    assert_eq!(
        describe_fault(Fault::Overflow, "MUL", usize::MAX),
        format!("[MUL:{}] Result does not fit the register!", usize::MAX)
    );
    assert_eq!(describe_fault(Fault::DivisionByZero, "DIV", 1), "[DIV:1] Tried to divide by zero!");
}
