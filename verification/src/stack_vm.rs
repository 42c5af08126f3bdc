//! A small stack machine: one register, one stack of integers and an
//! instruction pointer into a program of text lines.
//!
//! Every instruction has a function of its own that runs it. Those functions
//! ask of their caller that the instruction can run at all; [`execute`]
//! asks nothing, tests that, and reports a [`Fault`] instead of running an
//! instruction that cannot run.

use crate::parse::{parse_i32, parse_usize, same_text, signed_of, unsigned_of};
use crate::text::{decimal, push_decimal};
use crate::words::{
    first_two_words, split, split_at, texts, to_ascii_uppercase, trim, trimmed, upper, word,
};
use vstd::hash_map::StringHashMap;
use vstd::prelude::*;
use vstd::string::StringExecFns;

verus! {

/// The state of the machine.
#[derive(Debug)]
pub struct VMState {
    /// The line that is run next.
    pub ip: usize,
    /// The register.
    pub reg: i32,
    /// The stack; values are pushed and popped at its end.
    pub stack: Vec<i32>,
}

impl VMState {
    pub fn new() -> (s: Self)
        ensures
            s.ip == 0,
            s.reg == 0,
            s.stack@ == Seq::<i32>::empty(),
    {
        Self { ip: 0, reg: 0, stack: Vec::new() }
    }
}

/// Whether `v` is the value of an `i32`.
pub open spec fn fits_i32(v: int) -> bool {
    -0x8000_0000 <= v <= 0x7fff_ffff
}

/// The quotient of `a` by `b` rounded towards zero.
pub open spec fn quotient(a: int, b: int) -> int
    recommends
        b != 0,
{
    if a >= 0 && b > 0 {
        a / b
    } else if a >= 0 {
        -(a / (-b))
    } else if b > 0 {
        -((-a) / b)
    } else {
        (-a) / (-b)
    }
}

/// Divides `a` by `b`, rounding towards zero.
pub fn divide(a: i32, b: i32) -> (q: i32)
    requires
        b != 0,
        fits_i32(quotient(a as int, b as int)),
    ensures
        q == quotient(a as int, b as int),
{
    let wide_a: i64 = a as i64;
    let wide_b: i64 = b as i64;
    let magnitude_a: u64 = if wide_a < 0 {
        (0 - wide_a) as u64
    } else {
        wide_a as u64
    };
    let magnitude_b: u64 = if wide_b < 0 {
        (0 - wide_b) as u64
    } else {
        wide_b as u64
    };
    let q: u64 = magnitude_a / magnitude_b;
    assert(q <= magnitude_a) by (nonlinear_arith)
        requires
            q == magnitude_a / magnitude_b,
            magnitude_b > 0,
    ;
    if (a < 0) != (b < 0) {
        (0 - (q as i64)) as i32
    } else {
        q as i32
    }
}

/// The text of an argument, if there is an argument.
pub open spec fn text_of(arg: Option<&str>) -> Option<Seq<char>> {
    match arg {
        Some(a) => Some(a@),
        None => None,
    }
}

/// The number that the argument of `LOAD` denotes, if it denotes one.
pub open spec fn int_argument(arg: Option<Seq<char>>) -> Option<int> {
    match arg {
        Some(a) => match signed_of(a, 0x8000_0000, 0x7fff_ffff) {
            Ok(v) => Some(v),
            Err(_) => None,
        },
        None => None,
    }
}

/// The line that the argument of a jump denotes, if it denotes one.
pub open spec fn line_argument(arg: Option<Seq<char>>) -> Option<nat> {
    match arg {
        Some(a) => match unsigned_of(a, usize::MAX as nat) {
            Ok(v) => Some(v),
            Err(_) => None,
        },
        None => None,
    }
}

/// `PRINT`: hands out the register for printing.
pub fn ex_print(_arg: Option<&str>, vm_state: &mut VMState) -> (shown: i32)
    requires
        old(vm_state).ip < usize::MAX,
    ensures
        shown == old(vm_state).reg,
        final(vm_state).ip == old(vm_state).ip + 1,
        final(vm_state).reg == old(vm_state).reg,
        final(vm_state).stack@ == old(vm_state).stack@,
{
    vm_state.ip += 1;
    vm_state.reg
}

/// `PUSH`: puts the register on the stack.
pub fn ex_push(_arg: Option<&str>, vm_state: &mut VMState)
    requires
        old(vm_state).ip < usize::MAX,
    ensures
        final(vm_state).stack@ == old(vm_state).stack@.push(old(vm_state).reg),
        final(vm_state).reg == old(vm_state).reg,
        final(vm_state).ip == old(vm_state).ip + 1,
{
    vm_state.stack.push(vm_state.reg);
    vm_state.ip += 1;
}

/// `POP`: takes the last value off the stack into the register.
pub fn ex_pop(_arg: Option<&str>, vm_state: &mut VMState)
    requires
        old(vm_state).ip < usize::MAX,
        old(vm_state).stack@.len() > 0,
    ensures
        final(vm_state).reg == old(vm_state).stack@.last(),
        final(vm_state).stack@ == old(vm_state).stack@.drop_last(),
        final(vm_state).ip == old(vm_state).ip + 1,
{
    if let Some(value) = vm_state.stack.pop() {
        vm_state.reg = value;
        vm_state.ip += 1;
    }
}

/// `TOP`: copies the first value of the stack, the one pushed longest ago,
/// into the register.
pub fn ex_top(_arg: Option<&str>, vm_state: &mut VMState)
    requires
        old(vm_state).ip < usize::MAX,
        old(vm_state).stack@.len() > 0,
    ensures
        final(vm_state).reg == old(vm_state).stack@[0],
        final(vm_state).stack@ == old(vm_state).stack@,
        final(vm_state).ip == old(vm_state).ip + 1,
{
    vm_state.reg = vm_state.stack[0];
    vm_state.ip += 1;
}

/// `ADD`: takes the last value off the stack and adds it to the register.
pub fn ex_add(_arg: Option<&str>, vm_state: &mut VMState)
    requires
        old(vm_state).ip < usize::MAX,
        old(vm_state).stack@.len() > 0,
        fits_i32(old(vm_state).reg + old(vm_state).stack@.last()),
    ensures
        final(vm_state).reg == old(vm_state).reg + old(vm_state).stack@.last(),
        final(vm_state).stack@ == old(vm_state).stack@.drop_last(),
        final(vm_state).ip == old(vm_state).ip + 1,
{
    if let Some(value) = vm_state.stack.pop() {
        vm_state.reg += value;
        vm_state.ip += 1;
    }
}

/// `SUB`: takes the last value off the stack and subtracts the register from
/// it.
pub fn ex_sub(_arg: Option<&str>, vm_state: &mut VMState)
    requires
        old(vm_state).ip < usize::MAX,
        old(vm_state).stack@.len() > 0,
        fits_i32(old(vm_state).stack@.last() - old(vm_state).reg),
    ensures
        final(vm_state).reg == old(vm_state).stack@.last() - old(vm_state).reg,
        final(vm_state).stack@ == old(vm_state).stack@.drop_last(),
        final(vm_state).ip == old(vm_state).ip + 1,
{
    if let Some(value) = vm_state.stack.pop() {
        vm_state.reg = value - vm_state.reg;
        vm_state.ip += 1;
    }
}

/// `DIV`: takes the last value off the stack and divides it by the register,
/// rounding towards zero.
pub fn ex_div(_arg: Option<&str>, vm_state: &mut VMState)
    requires
        old(vm_state).ip < usize::MAX,
        old(vm_state).stack@.len() > 0,
        old(vm_state).reg != 0,
        fits_i32(quotient(old(vm_state).stack@.last() as int, old(vm_state).reg as int)),
    ensures
        final(vm_state).reg == quotient(
            old(vm_state).stack@.last() as int,
            old(vm_state).reg as int,
        ),
        final(vm_state).stack@ == old(vm_state).stack@.drop_last(),
        final(vm_state).ip == old(vm_state).ip + 1,
{
    if let Some(value) = vm_state.stack.pop() {
        vm_state.reg = divide(value, vm_state.reg);
        vm_state.ip += 1;
    }
}

/// `MUL`: takes the last value off the stack and multiplies the register by
/// it.
pub fn ex_mul(_arg: Option<&str>, vm_state: &mut VMState)
    requires
        old(vm_state).ip < usize::MAX,
        old(vm_state).stack@.len() > 0,
        fits_i32(old(vm_state).reg * old(vm_state).stack@.last()),
    ensures
        final(vm_state).reg == old(vm_state).reg * old(vm_state).stack@.last(),
        final(vm_state).stack@ == old(vm_state).stack@.drop_last(),
        final(vm_state).ip == old(vm_state).ip + 1,
{
    if let Some(value) = vm_state.stack.pop() {
        vm_state.reg *= value;
        vm_state.ip += 1;
    }
}

/// `LOAD n`: puts the number `n` on the stack.
pub fn ex_load(arg: Option<&str>, vm_state: &mut VMState)
    requires
        old(vm_state).ip < usize::MAX,
        int_argument(text_of(arg)) is Some,
    ensures
        final(vm_state).stack@ == old(vm_state).stack@.push(int_argument(text_of(arg)).unwrap() as i32),
        final(vm_state).reg == old(vm_state).reg,
        final(vm_state).ip == old(vm_state).ip + 1,
{
    if let Some(arg) = arg {
        if let Ok(value) = parse_i32(arg) {
            vm_state.stack.push(value);
            vm_state.ip += 1;
        }
    }
}

/// `JMP n`: goes on at line `n`.
pub fn ex_jmp(arg: Option<&str>, vm_state: &mut VMState)
    requires
        line_argument(text_of(arg)) is Some,
    ensures
        final(vm_state).ip == line_argument(text_of(arg)).unwrap(),
        final(vm_state).reg == old(vm_state).reg,
        final(vm_state).stack@ == old(vm_state).stack@,
{
    if let Some(arg) = arg {
        if let Ok(target) = parse_usize(arg) {
            vm_state.ip = target;
        }
    }
}

/// `JZ n`: goes on at line `n` if the register is zero, at the next line
/// otherwise.
pub fn ex_jz(arg: Option<&str>, vm_state: &mut VMState)
    requires
        line_argument(text_of(arg)) is Some,
        old(vm_state).reg != 0 ==> old(vm_state).ip < usize::MAX,
    ensures
        final(vm_state).ip == (if old(vm_state).reg == 0 {
            line_argument(text_of(arg)).unwrap() as int
        } else {
            old(vm_state).ip + 1
        }),
        final(vm_state).reg == old(vm_state).reg,
        final(vm_state).stack@ == old(vm_state).stack@,
{
    if let Some(arg) = arg {
        if let Ok(n_ip) = parse_usize(arg) {
            if vm_state.reg == 0 {
                vm_state.ip = n_ip;
            } else {
                vm_state.ip += 1;
            }
        }
    }
}

/// `JNZ n`: goes on at line `n` if the register is not zero, at the next
/// line otherwise.
pub fn ex_jnz(arg: Option<&str>, vm_state: &mut VMState)
    requires
        line_argument(text_of(arg)) is Some,
        old(vm_state).reg == 0 ==> old(vm_state).ip < usize::MAX,
    ensures
        final(vm_state).ip == (if old(vm_state).reg != 0 {
            line_argument(text_of(arg)).unwrap() as int
        } else {
            old(vm_state).ip + 1
        }),
        final(vm_state).reg == old(vm_state).reg,
        final(vm_state).stack@ == old(vm_state).stack@,
{
    if let Some(arg) = arg {
        if let Ok(n_ip) = parse_usize(arg) {
            if vm_state.reg != 0 {
                vm_state.ip = n_ip;
            } else {
                vm_state.ip += 1;
            }
        }
    }
}

/// The instructions of the machine.
#[derive(Clone, Copy, Debug, PartialEq, Eq, Structural)]
pub enum Command {
    Push,
    Pop,
    Top,
    Add,
    Sub,
    Div,
    Mul,
    Load,
    Jmp,
    Jz,
    Jnz,
    Print,
}

impl Command {
    /// The word by which a program names the instruction.
    pub open spec fn name(self) -> Seq<char> {
        match self {
            Command::Push => "PUSH"@,
            Command::Pop => "POP"@,
            Command::Top => "TOP"@,
            Command::Add => "ADD"@,
            Command::Sub => "SUB"@,
            Command::Div => "DIV"@,
            Command::Mul => "MUL"@,
            Command::Load => "LOAD"@,
            Command::Jmp => "JMP"@,
            Command::Jz => "JZ"@,
            Command::Jnz => "JNZ"@,
            Command::Print => "PRINT"@,
        }
    }
}

/// The instruction set: every instruction under its name.
pub open spec fn command_table() -> Map<Seq<char>, Command> {
    Map::<Seq<char>, Command>::empty().insert("PUSH"@, Command::Push).insert(
        "POP"@,
        Command::Pop,
    ).insert("TOP"@, Command::Top).insert("ADD"@, Command::Add).insert(
        "SUB"@,
        Command::Sub,
    ).insert("DIV"@, Command::Div).insert("MUL"@, Command::Mul).insert(
        "LOAD"@,
        Command::Load,
    ).insert("JMP"@, Command::Jmp).insert("JZ"@, Command::Jz).insert(
        "JNZ"@,
        Command::Jnz,
    ).insert("PRINT"@, Command::Print)
}

/// Builds the instruction set.
pub fn build_commands() -> (commands: StringHashMap<Command>)
    ensures
        commands@ == command_table(),
{
    let mut commands: StringHashMap<Command> = StringHashMap::new();
    commands.insert(String::from_str("PUSH"), Command::Push);
    commands.insert(String::from_str("POP"), Command::Pop);
    commands.insert(String::from_str("TOP"), Command::Top);
    commands.insert(String::from_str("ADD"), Command::Add);
    commands.insert(String::from_str("SUB"), Command::Sub);
    commands.insert(String::from_str("DIV"), Command::Div);
    commands.insert(String::from_str("MUL"), Command::Mul);
    commands.insert(String::from_str("LOAD"), Command::Load);
    commands.insert(String::from_str("JMP"), Command::Jmp);
    commands.insert(String::from_str("JZ"), Command::Jz);
    commands.insert(String::from_str("JNZ"), Command::Jnz);
    commands.insert(String::from_str("PRINT"), Command::Print);

    commands
}

/// Every instruction is found in the instruction set under its own name, and
/// nothing else is found there.
pub proof fn lemma_command_table()
    ensures
        forall|c: Command|
            command_table().contains_key(#[trigger] c.name()) && command_table()[c.name()] == c,
        forall|key: Seq<char>|
            command_table().contains_key(key) ==> #[trigger] command_table()[key].name() == key,
{
    reveal_strlit("PUSH");
    reveal_strlit("POP");
    reveal_strlit("TOP");
    reveal_strlit("ADD");
    reveal_strlit("SUB");
    reveal_strlit("DIV");
    reveal_strlit("MUL");
    reveal_strlit("LOAD");
    reveal_strlit("JMP");
    reveal_strlit("JZ");
    reveal_strlit("JNZ");
    reveal_strlit("PRINT");
    assert("PUSH"@[1] == 'U' && "POP"@[1] == 'O' && "TOP"@[0] == 'T' && "ADD"@[0] == 'A'
        && "SUB"@[0] == 'S' && "DIV"@[0] == 'D' && "MUL"@[0] == 'M' && "JMP"@[1] == 'M'
        && "JNZ"@[1] == 'N' && "JZ"@[0] == 'J' && "LOAD"@[0] == 'L' && "PRINT"@[4] == 'T');
    assert("PUSH"@[0] == 'P' && "POP"@[0] == 'P' && "JMP"@[0] == 'J' && "JNZ"@[0] == 'J');
}

/// Why an instruction cannot be run.
#[derive(Clone, Copy, Debug, PartialEq, Eq, Structural)]
pub enum Fault {
    /// The line holds no word at all.
    EmptyLine,
    /// The first word of the line names no instruction.
    InvalidInstruction,
    /// The instruction takes a value off the stack, and the stack is empty.
    EmptyStack,
    /// The instruction needs an argument, and the line has none.
    MissingArgument,
    /// The argument is not a number of the kind that the instruction needs.
    InvalidArgument,
    /// The result does not fit the register.
    Overflow,
    /// The divisor is zero.
    DivisionByZero,
}

/// What keeps `command` from running with `arg` when the register holds
/// `reg` and the stack `stack`, if anything does.
pub open spec fn fault_of(
    command: Command,
    arg: Option<Seq<char>>,
    reg: i32,
    stack: Seq<i32>,
) -> Option<Fault> {
    match command {
        Command::Push | Command::Print => None,
        Command::Pop | Command::Top => if stack.len() == 0 {
            Some(Fault::EmptyStack)
        } else {
            None
        },
        Command::Add => if stack.len() == 0 {
            Some(Fault::EmptyStack)
        } else if !fits_i32(reg + stack.last()) {
            Some(Fault::Overflow)
        } else {
            None
        },
        Command::Sub => if stack.len() == 0 {
            Some(Fault::EmptyStack)
        } else if !fits_i32(stack.last() - reg) {
            Some(Fault::Overflow)
        } else {
            None
        },
        Command::Mul => if stack.len() == 0 {
            Some(Fault::EmptyStack)
        } else if !fits_i32(reg * stack.last()) {
            Some(Fault::Overflow)
        } else {
            None
        },
        Command::Div => if stack.len() == 0 {
            Some(Fault::EmptyStack)
        } else if reg == 0 {
            Some(Fault::DivisionByZero)
        } else if !fits_i32(quotient(stack.last() as int, reg as int)) {
            Some(Fault::Overflow)
        } else {
            None
        },
        Command::Load => if arg is None {
            Some(Fault::MissingArgument)
        } else if int_argument(arg) is None {
            Some(Fault::InvalidArgument)
        } else {
            None
        },
        Command::Jmp | Command::Jz | Command::Jnz => if arg is None {
            Some(Fault::MissingArgument)
        } else if line_argument(arg) is None {
            Some(Fault::InvalidArgument)
        } else {
            None
        },
    }
}

/// The instruction pointer, the register and the stack after `command` has
/// run with `arg`, given what they were before.
pub open spec fn effect_of(
    command: Command,
    arg: Option<Seq<char>>,
    ip: usize,
    reg: i32,
    stack: Seq<i32>,
) -> (int, int, Seq<i32>) {
    match command {
        Command::Print => (ip + 1, reg as int, stack),
        Command::Push => (ip + 1, reg as int, stack.push(reg)),
        Command::Pop => (ip + 1, stack.last() as int, stack.drop_last()),
        Command::Top => (ip + 1, stack[0] as int, stack),
        Command::Add => (ip + 1, reg + stack.last(), stack.drop_last()),
        Command::Sub => (ip + 1, stack.last() - reg, stack.drop_last()),
        Command::Mul => (ip + 1, reg * stack.last(), stack.drop_last()),
        Command::Div => (ip + 1, quotient(stack.last() as int, reg as int), stack.drop_last()),
        Command::Load => (ip + 1, reg as int, stack.push(int_argument(arg).unwrap() as i32)),
        Command::Jmp => (line_argument(arg).unwrap() as int, reg as int, stack),
        Command::Jz => (
            if reg == 0 {
                line_argument(arg).unwrap() as int
            } else {
                ip + 1
            },
            reg as int,
            stack,
        ),
        Command::Jnz => (
            if reg != 0 {
                line_argument(arg).unwrap() as int
            } else {
                ip + 1
            },
            reg as int,
            stack,
        ),
    }
}

/// Tells what keeps `command` from running, if anything does.
pub fn check(command: Command, arg: Option<&str>, vm_state: &VMState) -> (fault: Option<Fault>)
    ensures
        fault == fault_of(command, text_of(arg), vm_state.reg, vm_state.stack@),
{
    let depth = vm_state.stack.len();
    let last: i64 = if depth > 0 {
        vm_state.stack[depth - 1] as i64
    } else {
        0
    };
    let reg: i64 = vm_state.reg as i64;
    match command {
        Command::Push | Command::Print => None,
        Command::Pop | Command::Top => {
            if depth == 0 {
                Some(Fault::EmptyStack)
            } else {
                None
            }
        },
        Command::Add => {
            if depth == 0 {
                Some(Fault::EmptyStack)
            } else if !in_i32(reg + last) {
                Some(Fault::Overflow)
            } else {
                None
            }
        },
        Command::Sub => {
            if depth == 0 {
                Some(Fault::EmptyStack)
            } else if !in_i32(last - reg) {
                Some(Fault::Overflow)
            } else {
                None
            }
        },
        Command::Mul => {
            if depth == 0 {
                Some(Fault::EmptyStack)
            } else if !product_fits(vm_state.reg, vm_state.stack[depth - 1]) {
                Some(Fault::Overflow)
            } else {
                None
            }
        },
        Command::Div => {
            if depth == 0 {
                Some(Fault::EmptyStack)
            } else if reg == 0 {
                Some(Fault::DivisionByZero)
            } else if last == -0x8000_0000 && reg == -1 {
                Some(Fault::Overflow)
            } else {
                proof {
                    lemma_quotient_fits(last as int, reg as int);
                }
                None
            }
        },
        Command::Load => {
            match arg {
                None => Some(Fault::MissingArgument),
                Some(a) => match parse_i32(a) {
                    Ok(_) => None,
                    Err(_) => Some(Fault::InvalidArgument),
                },
            }
        },
        Command::Jmp | Command::Jz | Command::Jnz => {
            match arg {
                None => Some(Fault::MissingArgument),
                Some(a) => match parse_usize(a) {
                    Ok(_) => None,
                    Err(_) => Some(Fault::InvalidArgument),
                },
            }
        },
    }
}

fn product_fits(a: i32, b: i32) -> (fits: bool)
    ensures
        fits == fits_i32(a * b),
{
    let wide_a: i64 = a as i64;
    let wide_b: i64 = b as i64;
    assert(-0x4000_0000_0000_0000 <= wide_a * wide_b <= 0x4000_0000_0000_0000) by (nonlinear_arith)
        requires
            -0x8000_0000 <= wide_a <= 0x7fff_ffff,
            -0x8000_0000 <= wide_b <= 0x7fff_ffff,
    ;
    in_i32(wide_a * wide_b)
}

fn in_i32(v: i64) -> (b: bool)
    ensures
        b == fits_i32(v as int),
{
    -0x8000_0000 <= v && v <= 0x7fff_ffff
}

/// The quotient of two 32-bit numbers fits 32 bits, except for the least
/// number divided by -1.
pub proof fn lemma_quotient_fits(a: int, b: int)
    requires
        fits_i32(a),
        fits_i32(b),
        b != 0,
    ensures
        fits_i32(quotient(a, b)) <==> !(a == -0x8000_0000 && b == -1),
{
    let ma = if a < 0 {
        -a
    } else {
        a
    };
    let mb = if b < 0 {
        -b
    } else {
        b
    };
    assert(0 <= ma / mb <= ma) by (nonlinear_arith)
        requires
            ma >= 0,
            mb > 0,
    ;
    if b == -1 || b == 1 {
        assert(ma / 1 == ma);
    } else {
        assert(ma / mb < 0x8000_0000) by (nonlinear_arith)
            requires
                0 <= ma <= 0x8000_0000,
                mb >= 2,
        ;
    }
}

/// Runs `command` with `arg` if it can run, and reports the fault if it
/// cannot; the machine is then left as it was. `PRINT` hands out the number
/// to print.
pub fn execute(command: Command, arg: Option<&str>, vm_state: &mut VMState) -> (r: Result<
    Option<i32>,
    Fault,
>)
    requires
        old(vm_state).ip < usize::MAX,
    ensures
        match fault_of(command, text_of(arg), old(vm_state).reg, old(vm_state).stack@) {
            Some(fault) => {
                &&& r == Err::<Option<i32>, Fault>(fault)
                &&& final(vm_state).ip == old(vm_state).ip
                &&& final(vm_state).reg == old(vm_state).reg
                &&& final(vm_state).stack@ == old(vm_state).stack@
            },
            None => {
                &&& r == Ok::<Option<i32>, Fault>(
                    if command == Command::Print {
                        Some(old(vm_state).reg)
                    } else {
                        None
                    },
                )
                &&& (final(vm_state).ip as int, final(vm_state).reg as int, final(vm_state).stack@)
                    == effect_of(
                    command,
                    text_of(arg),
                    old(vm_state).ip,
                    old(vm_state).reg,
                    old(vm_state).stack@,
                )
            },
        },
{
    if let Some(fault) = check(command, arg, vm_state) {
        return Err(fault);
    }
    let mut shown: Option<i32> = None;
    match command {
        Command::Push => ex_push(arg, vm_state),
        Command::Pop => ex_pop(arg, vm_state),
        Command::Top => ex_top(arg, vm_state),
        Command::Add => ex_add(arg, vm_state),
        Command::Sub => ex_sub(arg, vm_state),
        Command::Div => ex_div(arg, vm_state),
        Command::Mul => ex_mul(arg, vm_state),
        Command::Load => ex_load(arg, vm_state),
        Command::Jmp => ex_jmp(arg, vm_state),
        Command::Jz => ex_jz(arg, vm_state),
        Command::Jnz => ex_jnz(arg, vm_state),
        Command::Print => {
            shown = Some(ex_print(arg, vm_state));
        },
    }
    Ok(shown)
}

/// How far a step got.
#[derive(Clone, Copy, Debug, PartialEq, Eq, Structural)]
pub enum Progress {
    /// The instruction pointer has left the program: the run is over.
    Halted,
    /// One instruction has run; `PRINT` hands out the number to print.
    Ran(Option<i32>),
}

/// The instruction that a line names and the argument it gives: the line's
/// first word, looked up in `commands`, and its second word.
pub open spec fn decode(commands: Map<Seq<char>, Command>, line: Seq<char>) -> Result<
    (Command, Option<Seq<char>>),
    Fault,
> {
    match word(line, 0) {
        None => Err(Fault::EmptyLine),
        Some(name) => if commands.contains_key(name) {
            Ok((commands[name], word(line, 1)))
        } else {
            Err(Fault::InvalidInstruction)
        },
    }
}

/// Runs the line of `program` that the instruction pointer is at, if it is
/// at one.
pub fn step(commands: &StringHashMap<Command>, program: &Vec<String>, vm_state: &mut VMState) -> (r:
    Result<Progress, Fault>)
    ensures
        old(vm_state).ip >= program@.len() ==> r == Ok::<Progress, Fault>(Progress::Halted)
            && *final(vm_state) == *old(vm_state),
        old(vm_state).ip < program@.len() ==> match decode(
            commands@,
            program@[old(vm_state).ip as int]@,
        ) {
            Err(fault) => r == Err::<Progress, Fault>(fault) && *final(vm_state) == *old(vm_state),
            Ok((command, arg)) => match fault_of(
                command,
                arg,
                old(vm_state).reg,
                old(vm_state).stack@,
            ) {
                Some(fault) => {
                    &&& r == Err::<Progress, Fault>(fault)
                    &&& final(vm_state).ip == old(vm_state).ip
                    &&& final(vm_state).reg == old(vm_state).reg
                    &&& final(vm_state).stack@ == old(vm_state).stack@
                },
                None => {
                    &&& r == Ok::<Progress, Fault>(
                        Progress::Ran(
                            if command == Command::Print {
                                Some(old(vm_state).reg)
                            } else {
                                None
                            },
                        ),
                    )
                    &&& (final(vm_state).ip as int, final(vm_state).reg as int, final(vm_state).stack@)
                        == effect_of(
                        command,
                        arg,
                        old(vm_state).ip,
                        old(vm_state).reg,
                        old(vm_state).stack@,
                    )
                },
            },
        },
{
    if vm_state.ip >= program.len() {
        return Ok(Progress::Halted);
    }
    let line = program[vm_state.ip].as_str();
    let (name, arg) = first_two_words(line);
    let name = match name {
        Some(name) => name,
        None => {
            return Err(Fault::EmptyLine);
        },
    };
    let command = match commands.get(name) {
        Some(command) => *command,
        None => {
            return Err(Fault::InvalidInstruction);
        },
    };
    match execute(command, arg, vm_state) {
        Ok(shown) => Ok(Progress::Ran(shown)),
        Err(fault) => Err(fault),
    }
}

/// What stands before the complaint about an instruction: its name and its
/// line, in square brackets.
pub open spec fn fault_tag(name: Seq<char>, ip: nat) -> Seq<char> {
    "["@ + name + ":"@ + decimal(ip) + "]"@
}

/// The complaint about `fault` at line `ip`, where the line names the
/// instruction `name` and gives the argument `arg`.
pub open spec fn fault_text(fault: Fault, name: Seq<char>, arg: Seq<char>, ip: nat) -> Seq<char> {
    match fault {
        Fault::EmptyLine => "Empty instruction at line "@ + decimal(ip),
        Fault::InvalidInstruction => "Invalid instruction at line "@ + decimal(ip) + ": '"@ + name
            + "'"@,
        Fault::EmptyStack => fault_tag(name, ip) + (if name == "TOP"@ {
            " Tried to peek empty stack!"@
        } else {
            " Tried to pop from empty stack!"@
        }),
        Fault::MissingArgument => fault_tag(name, ip) + (if name == "JMP"@ {
            " Requires one uint argument!"@
        } else {
            " Requires one int argument!"@
        }),
        Fault::InvalidArgument => fault_tag(name, ip) + " Could not parse '"@ + arg + "'"@,
        Fault::Overflow => fault_tag(name, ip) + " Result does not fit the register!"@,
        Fault::DivisionByZero => fault_tag(name, ip) + " Tried to divide by zero!"@,
    }
}

/// The word `k` of a line, or nothing where the line has no such word.
pub open spec fn word_or_empty(line: Seq<char>, k: nat) -> Seq<char> {
    match word(line, k) {
        Some(w) => w,
        None => Seq::empty(),
    }
}

/// Writes the complaint about a fault that [`step`] found in `line`, line
/// number `ip` of the program.
pub fn describe_fault(fault: Fault, line: &str, ip: usize) -> (text: String)
    ensures
        text@ == fault_text(fault, word_or_empty(line@, 0), word_or_empty(line@, 1), ip as nat),
{
    let (first, second) = first_two_words(line);
    let name: &str = match first {
        Some(w) => w,
        None => "",
    };
    let arg: &str = match second {
        Some(w) => w,
        None => "",
    };
    proof {
        reveal_strlit("");
        assert(""@ =~= Seq::<char>::empty());
    }
    let mut text = String::new();
    match fault {
        Fault::EmptyLine => {
            text.append("Empty instruction at line ");
            push_decimal(&mut text, ip as u128);
        },
        Fault::InvalidInstruction => {
            text.append("Invalid instruction at line ");
            push_decimal(&mut text, ip as u128);
            text.append(": '");
            text.append(name);
            text.append("'");
        },
        _ => {
            text.append("[");
            text.append(name);
            text.append(":");
            push_decimal(&mut text, ip as u128);
            text.append("]");
            assert(text@ =~= fault_tag(name@, ip as nat));
            match fault {
                Fault::EmptyStack => {
                    if same_text(name, "TOP") {
                        text.append(" Tried to peek empty stack!");
                    } else {
                        text.append(" Tried to pop from empty stack!");
                    }
                },
                Fault::MissingArgument => {
                    if same_text(name, "JMP") {
                        text.append(" Requires one uint argument!");
                    } else {
                        text.append(" Requires one int argument!");
                    }
                },
                Fault::InvalidArgument => {
                    text.append(" Could not parse '");
                    text.append(arg);
                    text.append("'");
                },
                Fault::Overflow => {
                    text.append(" Result does not fit the register!");
                },
                _ => {
                    text.append(" Tried to divide by zero!");
                },
            }
        },
    }
    assert(text@ =~= fault_text(fault, name@, arg@, ip as nat));
    text
}

/// The lines of a program text: the text without the white space at its
/// ends, parted at every line feed, in capitals.
pub open spec fn program_of(content: Seq<char>) -> Seq<Seq<char>> {
    split_at(trimmed(content), '\n').map_values(
        |line: Seq<char>| line.map_values(|c: char| upper(c)),
    )
}

/// Parts a program text into its lines.
pub fn program_lines(content: &str) -> (program: Vec<String>)
    ensures
        texts(program@) == program_of(content@),
{
    let lines = split(trim(content), '\n');
    let mut program: Vec<String> = Vec::new();
    let mut i: usize = 0;
    while i < lines.len()
        invariant
            i <= lines@.len(),
            program@.len() == i,
            forall|j: int|
                0 <= j < i ==> (#[trigger] program@[j])@ == lines@[j]@.map_values(
                    |c: char| upper(c),
                ),
        decreases lines@.len() - i,
    {
        program.push(to_ascii_uppercase(lines[i].as_str()));
        i += 1;
    }
    assert(texts(program@) =~= texts(lines@).map_values(
        |line: Seq<char>| line.map_values(|c: char| upper(c)),
    ));
    program
}

} // verus!
