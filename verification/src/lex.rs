//! The written form of the instruction set: how a line of text is read as a
//! line of code.
//!
//! The smallest pieces of a line are recognised by the `nom` crate.  What
//! is trusted of `nom` is stated on the four functions that call it; how
//! the pieces make up pins, registers, operands, operations and lines is
//! verified against the grammar that the spec functions of this file
//! define.

use vstd::prelude::*;
use crate::op::{Condition, Label, Opcode, Pin, RegImm, Register, LOC};

verus! {

/// The input does not begin with what was looked for.
#[derive(Copy, Clone, Debug, PartialEq, Eq, Structural)]
pub struct LexError;

/// The number of characters at the start of `s` that `keep` holds of.
pub open spec fn run(s: Seq<char>, keep: spec_fn(char) -> bool) -> nat
    decreases s.len(),
{
    if s.len() > 0 && keep(s[0]) {
        1 + run(s.skip(1), keep)
    } else {
        0
    }
}

/// Whether `c` is one of the characters `0` to `9`.
pub open spec fn is_digit(c: char) -> bool {
    48 <= c as u32 <= 57
}

/// Whether `c` is one of the characters `0` to `9`, `a` to `z` and `A` to
/// `Z`.
pub open spec fn is_alphanumeric(c: char) -> bool {
    is_digit(c) || 97 <= c as u32 <= 122 || 65 <= c as u32 <= 90
}

/// The number that the digits `s` write in base ten.
pub open spec fn decimal(s: Seq<char>) -> nat
    decreases s.len(),
{
    if s.len() == 0 {
        0
    } else {
        10 * decimal(s.drop_last()) + (s.last() as u32 - 48) as nat
    }
}

/// What is left of `s` behind `pattern`, where `s` begins with `pattern`.
pub open spec fn after(s: Seq<char>, pattern: Seq<char>) -> Option<Seq<char>> {
    if pattern.is_prefix_of(s) {
        Some(s.skip(pattern.len() as int))
    } else {
        None
    }
}

/// The text `s` split in front of its first colon, or at its end where it
/// has none.
pub open spec fn till_colon(s: Seq<char>) -> (Seq<char>, Seq<char>) {
    let n = run(s, |c: char| c != ':') as int;
    (s.take(n), s.skip(n))
}

/// The longest run of letters and digits at the start of `s` and what
/// stands behind it; `None` where `s` begins with neither.
pub open spec fn word(s: Seq<char>) -> Option<(Seq<char>, Seq<char>)> {
    let n = run(s, |c: char| is_alphanumeric(c)) as int;
    if n > 0 {
        Some((s.take(n), s.skip(n)))
    } else {
        None
    }
}

/// The number that the longest run of digits at the start of `s` writes,
/// and what stands behind the run; `None` where `s` begins with no digit or
/// the number is above 65535.
pub open spec fn numeral(s: Seq<char>) -> Option<(u16, Seq<char>)> {
    let n = run(s, |c: char| is_digit(c)) as int;
    if n > 0 && decimal(s.take(n)) <= 65535 {
        Some((decimal(s.take(n)) as u16, s.skip(n)))
    } else {
        None
    }
}

/// Whether `c` is a colon.
pub fn is_colon(c: char) -> (r: bool)
    ensures
        r == (c == ':'),
{
    c == ':'
}

/// Calls `nom::bytes::complete::tag` with `pattern` on `input`.  Trusted:
/// the call succeeds exactly where `input` begins with `pattern`, and then
/// hands back what is left of `input` behind it.
#[verifier::external_body]
fn tag<'a>(pattern: &str, input: &'a str) -> (r: Option<&'a str>)
    ensures
        (r is Some) == (after(input@, pattern@) is Some),
        r is Some ==> r.unwrap()@ == after(input@, pattern@).unwrap(),
{
    match nom::bytes::complete::tag::<&str, &str, nom::error::Error<&str>>(pattern)(input) {
        Ok((rest, _)) => Some(rest),
        Err(_) => None,
    }
}

/// Calls `nom::bytes::complete::take_till` with the test for a colon on
/// `input`.  Trusted: the call always succeeds and splits `input` in front
/// of its first colon, or at its end where it has none; the result is what
/// stands in front of the split and what stands behind it.
#[verifier::external_body]
fn take_till_colon<'a>(input: &'a str) -> (r: Option<(&'a str, &'a str)>)
    ensures
        r is Some,
        r.unwrap().0@ == till_colon(input@).0,
        r.unwrap().1@ == till_colon(input@).1,
{
    match nom::bytes::complete::take_till::<_, &str, nom::error::Error<&str>>(|c| is_colon(c))(
        input,
    ) {
        Ok((rest, taken)) => Some((taken, rest)),
        Err(_) => None,
    }
}

/// Calls `nom::character::complete::alphanumeric1` on `input`.  Trusted:
/// the call succeeds exactly where `input` begins with a letter or digit of
/// ASCII, and then splits `input` behind the longest run of them; the
/// result is the run and what stands behind it.
#[verifier::external_body]
fn alphanumeric1<'a>(input: &'a str) -> (r: Option<(&'a str, &'a str)>)
    ensures
        (r is Some) == (word(input@) is Some),
        r is Some ==> r.unwrap().0@ == word(input@).unwrap().0,
        r is Some ==> r.unwrap().1@ == word(input@).unwrap().1,
{
    match nom::character::complete::alphanumeric1::<&str, nom::error::Error<&str>>(input) {
        Ok((rest, taken)) => Some((taken, rest)),
        Err(_) => None,
    }
}

/// Calls `nom::character::complete::u16` on `input`.  Trusted: the call
/// succeeds exactly where `input` begins with a digit and the longest run
/// of digits at its start writes a number of at most 65535; the result is
/// that number and what stands behind the run.
#[verifier::external_body]
fn number<'a>(input: &'a str) -> (r: Option<(u16, &'a str)>)
    ensures
        (r is Some) == (numeral(input@) is Some),
        r is Some ==> r.unwrap().0 == numeral(input@).unwrap().0,
        r is Some ==> r.unwrap().1@ == numeral(input@).unwrap().1,
{
    match nom::character::complete::u16::<&str, nom::error::Error<&str>>(input) {
        Ok((rest, value)) => Some((value, rest)),
        Err(_) => None,
    }
}

/// `value` and what is left of `s` behind `pattern`, where `s` begins with
/// `pattern`.
pub open spec fn keyword<T>(s: Seq<char>, pattern: Seq<char>, value: T) -> Option<(T, Seq<char>)> {
    match after(s, pattern) {
        Some(rest) => Some((value, rest)),
        None => None,
    }
}

/// The first of two readings that is there.
pub open spec fn either<T>(first: Option<T>, second: Option<T>) -> Option<T> {
    match first {
        Some(_) => first,
        None => second,
    }
}

/// A pin: one of `p0`, `p1`, `x0`, `x1`, `x2` and `x3`.
pub open spec fn pin_syntax(s: Seq<char>) -> Option<(Pin, Seq<char>)> {
    either(
        keyword(s, "p0"@, Pin::P0),
        either(
            keyword(s, "p1"@, Pin::P1),
            either(
                keyword(s, "x0"@, Pin::X0),
                either(
                    keyword(s, "x1"@, Pin::X1),
                    either(keyword(s, "x2"@, Pin::X2), keyword(s, "x3"@, Pin::X3)),
                ),
            ),
        ),
    )
}

/// A register: `acc`, `dat` or a pin.
pub open spec fn register_syntax(s: Seq<char>) -> Option<(Register, Seq<char>)> {
    either(
        keyword(s, "acc"@, Register::Acc),
        either(
            keyword(s, "dat"@, Register::Dat),
            match pin_syntax(s) {
                Some((pin, rest)) => Some((Register::Pin(pin), rest)),
                None => None,
            },
        ),
    )
}

/// A label: the text in front of the first colon, and the colon.
pub open spec fn label_syntax(s: Seq<char>) -> Option<(Seq<char>, Seq<char>)> {
    keyword(till_colon(s).1, ":"@, till_colon(s).0)
}

/// A guard: `+` or `-`.
pub open spec fn condition_syntax(s: Seq<char>) -> Option<(Condition, Seq<char>)> {
    either(keyword(s, "+"@, Condition(true)), keyword(s, "-"@, Condition(false)))
}

/// An operand: a register, or a number without a sign of at most 32767.
pub open spec fn regimm_syntax(s: Seq<char>) -> Option<(RegImm, Seq<char>)> {
    match register_syntax(s) {
        Some((reg, rest)) => Some((RegImm::Reg(reg), rest)),
        None => match numeral(s) {
            Some((value, rest)) => if value <= 32767 {
                Some((RegImm::Imm(value as i16), rest))
            } else {
                None
            },
            None => None,
        },
    }
}

/// The name of the label `label`, if there is one.
pub open spec fn name_of(label: Option<Label>) -> Option<Seq<char>> {
    match label {
        Some(label) => Some(label.0@),
        None => None,
    }
}

/// The names of the labels `labels`, place by place.
pub open spec fn names_of(labels: Seq<Option<Label>>) -> Seq<Option<Seq<char>>> {
    Seq::new(labels.len(), |i: int| name_of(labels[i]))
}

/// The first place from `from` on, and no later than place 255, at which
/// `names` holds `name`.
pub open spec fn search(names: Seq<Option<Seq<char>>>, name: Seq<char>, from: int) -> Option<u8>
    decreases names.len() - from,
{
    if from < 0 || from >= names.len() || from > 255 {
        None
    } else if names[from] == Some(name) {
        Some(from as u8)
    } else {
        search(names, name, from + 1)
    }
}

/// The address that the label `name` stands for: the first slot, among the
/// first 256, whose line carries that label.
pub open spec fn address_of(names: Seq<Option<Seq<char>>>, name: Seq<char>) -> Option<u8> {
    search(names, name, 0)
}

/// An operation with one operand: `name`, a space and the operand.
pub open spec fn unary_syntax(s: Seq<char>, name: Seq<char>) -> Option<(RegImm, Seq<char>)> {
    match after(s, name) {
        Some(a) => match after(a, " "@) {
            Some(b) => regimm_syntax(b),
            None => None,
        },
        None => None,
    }
}

/// An operation with two operands: `name`, a space, the first operand, a
/// space and the second operand.
pub open spec fn binary_syntax(s: Seq<char>, name: Seq<char>) -> Option<
    ((RegImm, RegImm), Seq<char>),
> {
    match unary_syntax(s, name) {
        Some((first, a)) => match after(a, " "@) {
            Some(b) => match regimm_syntax(b) {
                Some((second, rest)) => Some(((first, second), rest)),
                None => None,
            },
            None => None,
        },
        None => None,
    }
}

/// `mov`, a space, an operand, a space and a register.
pub open spec fn mov_syntax(s: Seq<char>) -> Option<(Opcode, Seq<char>)> {
    match unary_syntax(s, "mov"@) {
        Some((src, a)) => match after(a, " "@) {
            Some(b) => match register_syntax(b) {
                Some((dst, rest)) => Some((Opcode::MovReg(src, dst), rest)),
                None => None,
            },
            None => None,
        },
        None => None,
    }
}

/// `jmp`, a space and a run of letters and digits that names a label of
/// the program, which is read as the address of that label.
pub open spec fn jmp_syntax(s: Seq<char>, names: Seq<Option<Seq<char>>>) -> Option<
    (Opcode, Seq<char>),
> {
    match after(s, "jmp"@) {
        Some(a) => match after(a, " "@) {
            Some(b) => match word(b) {
                Some((name, rest)) => match address_of(names, name) {
                    Some(addr) => Some((Opcode::Jmp(addr), rest)),
                    None => None,
                },
                None => None,
            },
            None => None,
        },
        None => None,
    }
}

/// The operation that `make` makes of the operand that was read.
pub open spec fn one(
    operand: Option<(RegImm, Seq<char>)>,
    make: spec_fn(RegImm) -> Opcode,
) -> Option<(Opcode, Seq<char>)> {
    match operand {
        Some((x, rest)) => Some((make(x), rest)),
        None => None,
    }
}

/// The operation that `make` makes of the two operands that were read.
pub open spec fn two(
    operands: Option<((RegImm, RegImm), Seq<char>)>,
    make: spec_fn(RegImm, RegImm) -> Opcode,
) -> Option<(Opcode, Seq<char>)> {
    match operands {
        Some(((x, y), rest)) => Some((make(x, y), rest)),
        None => None,
    }
}

/// The operations from `dgt` on, in the order in which they are tried.
pub open spec fn late_syntax(s: Seq<char>) -> Option<(Opcode, Seq<char>)> {
    either(
        one(unary_syntax(s, "dgt"@), |x: RegImm| Opcode::Dgt(x)),
        either(
            two(binary_syntax(s, "dst"@), |x: RegImm, y: RegImm| Opcode::Dst(x, y)),
            either(
                two(binary_syntax(s, "teq"@), |x: RegImm, y: RegImm| Opcode::Teq(x, y)),
                either(
                    two(binary_syntax(s, "tgt"@), |x: RegImm, y: RegImm| Opcode::Tgt(x, y)),
                    either(
                        two(binary_syntax(s, "tlt"@), |x: RegImm, y: RegImm| Opcode::Tlt(x, y)),
                        two(binary_syntax(s, "tcp"@), |x: RegImm, y: RegImm| Opcode::Tcp(x, y)),
                    ),
                ),
            ),
        ),
    )
}

/// An operation: the first of `nop`, `mov`, `jmp`, `slp`, `add`, `sub`,
/// `mul`, `not`, `dgt`, `dst`, `teq`, `tgt`, `tlt` and `tcp`, each with its
/// operands, that the text begins with.
pub open spec fn opcode_syntax(s: Seq<char>, names: Seq<Option<Seq<char>>>) -> Option<
    (Opcode, Seq<char>),
> {
    either(
        keyword(s, "nop"@, Opcode::Nop),
        either(
            mov_syntax(s),
            either(
                jmp_syntax(s, names),
                either(
                    one(unary_syntax(s, "slp"@), |x: RegImm| Opcode::Slp(x)),
                    either(
                        one(unary_syntax(s, "add"@), |x: RegImm| Opcode::Add(x)),
                        either(
                            one(unary_syntax(s, "sub"@), |x: RegImm| Opcode::Sub(x)),
                            either(
                                one(unary_syntax(s, "mul"@), |x: RegImm| Opcode::Mul(x)),
                                either(keyword(s, "not"@, Opcode::Not), late_syntax(s)),
                            ),
                        ),
                    ),
                ),
            ),
        ),
    )
}

/// A label and the space behind it.
pub open spec fn labelled(s: Seq<char>) -> Option<(Seq<char>, Seq<char>)> {
    match label_syntax(s) {
        Some((name, rest)) => keyword(rest, " "@, name),
        None => None,
    }
}

/// A guard and the space behind it.
pub open spec fn guarded(s: Seq<char>) -> Option<(Condition, Seq<char>)> {
    match condition_syntax(s) {
        Some((cond, rest)) => keyword(rest, " "@, cond),
        None => None,
    }
}

/// What a line of text says: the name of its label, its guard and its
/// operation.
pub struct Line {
    pub lab: Option<Seq<char>>,
    pub cond: Option<Condition>,
    pub op: Option<Opcode>,
}

/// What the line of code `loc` says.
pub open spec fn line_of(loc: LOC) -> Line {
    Line {
        lab: name_of(loc.lab),
        cond: loc.cond,
        op: loc.op,
    }
}

/// What is there of `reading`, and what is left of the text behind it; or
/// nothing, and the text `s` as it is.
pub open spec fn optional<T>(reading: Option<(T, Seq<char>)>, s: Seq<char>) -> (
    Option<T>,
    Seq<char>,
) {
    match reading {
        Some((value, rest)) => (Some(value), rest),
        None => (None, s),
    }
}

/// A line: a label with a space, a guard with a space and an operation,
/// each of which may be missing.  Every text is a line; what does not read
/// as one of the three parts is left over.
pub open spec fn line_syntax(s: Seq<char>, names: Seq<Option<Seq<char>>>) -> (Line, Seq<char>) {
    let (lab, s1) = optional(labelled(s), s);
    let (cond, s2) = optional(guarded(s1), s1);
    let (op, s3) = optional(opcode_syntax(s2, names), s2);
    (Line { lab, cond, op }, s3)
}

/// The labels of the lines `lines`, line by line.
pub open spec fn label_table(lines: Seq<String>) -> Seq<Option<Seq<char>>> {
    Seq::new(lines.len(), |i: int| optional(labelled(lines[i]@), lines[i]@).0)
}

/// Reads an operation with one operand that is called `name`.
fn unary<'a>(name: &str, input: &'a str) -> (r: Result<(&'a str, RegImm), LexError>)
    ensures
        match r {
            Ok((rest, x)) => unary_syntax(input@, name@) == Some((x, rest@)),
            Err(_) => unary_syntax(input@, name@) is None,
        },
{
    let a = match tag(name, input) {
        Some(a) => a,
        None => {
            return Err(LexError);
        },
    };
    let b = match tag(" ", a) {
        Some(b) => b,
        None => {
            return Err(LexError);
        },
    };
    RegImm::lex_from_str(b)
}

/// Reads an operation with two operands that is called `name`.
fn binary<'a>(name: &str, input: &'a str) -> (r: Result<(&'a str, (RegImm, RegImm)), LexError>)
    ensures
        match r {
            Ok((rest, pair)) => binary_syntax(input@, name@) == Some((pair, rest@)),
            Err(_) => binary_syntax(input@, name@) is None,
        },
{
    let (a, first) = match unary(name, input) {
        Ok(found) => found,
        Err(e) => {
            return Err(e);
        },
    };
    let b = match tag(" ", a) {
        Some(b) => b,
        None => {
            return Err(LexError);
        },
    };
    match RegImm::lex_from_str(b) {
        Ok((rest, second)) => Ok((rest, (first, second))),
        Err(e) => Err(e),
    }
}

/// Reads `mov` with its operand and its register.
fn mov<'a>(input: &'a str) -> (r: Result<(&'a str, Opcode), LexError>)
    ensures
        match r {
            Ok((rest, op)) => mov_syntax(input@) == Some((op, rest@)),
            Err(_) => mov_syntax(input@) is None,
        },
{
    let (a, src) = match unary("mov", input) {
        Ok(found) => found,
        Err(e) => {
            return Err(e);
        },
    };
    let b = match tag(" ", a) {
        Some(b) => b,
        None => {
            return Err(LexError);
        },
    };
    match Register::lex_from_str(b) {
        Ok((rest, dst)) => Ok((rest, Opcode::MovReg(src, dst))),
        Err(e) => Err(e),
    }
}

/// The address that the label `name` stands for among `labels`.
pub fn resolve(labels: &Vec<Option<Label>>, name: &str) -> (r: Option<u8>)
    ensures
        r == address_of(names_of(labels@), name@),
{
    let wanted = name.to_owned();
    let mut at: usize = 0;
    while at < labels.len() && at <= 255
        invariant
            wanted@ == name@,
            search(names_of(labels@), name@, at as int) == address_of(names_of(labels@), name@),
        decreases labels.len() - at,
    {
        let found = match &labels[at] {
            Some(label) => label.0 == wanted,
            None => false,
        };
        if found {
            return Some(at as u8);
        }
        at = at + 1;
    }
    None
}

/// Reads `jmp` with the label that it names.
fn jmp<'a>(input: &'a str, labels: &Vec<Option<Label>>) -> (r: Result<(&'a str, Opcode), LexError>)
    ensures
        match r {
            Ok((rest, op)) => jmp_syntax(input@, names_of(labels@)) == Some((op, rest@)),
            Err(_) => jmp_syntax(input@, names_of(labels@)) is None,
        },
{
    let a = match tag("jmp", input) {
        Some(a) => a,
        None => {
            return Err(LexError);
        },
    };
    let b = match tag(" ", a) {
        Some(b) => b,
        None => {
            return Err(LexError);
        },
    };
    let (name, rest) = match alphanumeric1(b) {
        Some(found) => found,
        None => {
            return Err(LexError);
        },
    };
    match resolve(labels, name) {
        Some(addr) => Ok((rest, Opcode::Jmp(addr))),
        None => Err(LexError),
    }
}

/// Reads one of the operations from `dgt` on.
fn late<'a>(input: &'a str) -> (r: Result<(&'a str, Opcode), LexError>)
    ensures
        match r {
            Ok((rest, op)) => late_syntax(input@) == Some((op, rest@)),
            Err(_) => late_syntax(input@) is None,
        },
{
    if let Ok((rest, x)) = unary("dgt", input) {
        return Ok((rest, Opcode::Dgt(x)));
    }
    if let Ok((rest, (x, y))) = binary("dst", input) {
        return Ok((rest, Opcode::Dst(x, y)));
    }
    if let Ok((rest, (x, y))) = binary("teq", input) {
        return Ok((rest, Opcode::Teq(x, y)));
    }
    if let Ok((rest, (x, y))) = binary("tgt", input) {
        return Ok((rest, Opcode::Tgt(x, y)));
    }
    if let Ok((rest, (x, y))) = binary("tlt", input) {
        return Ok((rest, Opcode::Tlt(x, y)));
    }
    if let Ok((rest, (x, y))) = binary("tcp", input) {
        return Ok((rest, Opcode::Tcp(x, y)));
    }
    Err(LexError)
}

impl Opcode {
    /// Reads an operation at the start of `input`, and hands it back with
    /// what is left of `input`.  The label that a jump names is looked up in
    /// `labels`, which holds the label of each line of the program, and is
    /// read as the address of the first line that carries it.
    pub fn lex_from_str<'a>(input: &'a str, labels: &Vec<Option<Label>>) -> (r: Result<
        (&'a str, Opcode),
        LexError,
    >)
        ensures
            match r {
                Ok((rest, op)) => opcode_syntax(input@, names_of(labels@)) == Some((op, rest@)),
                Err(_) => opcode_syntax(input@, names_of(labels@)) is None,
            },
    {
        if let Some(rest) = tag("nop", input) {
            return Ok((rest, Opcode::Nop));
        }
        if let Ok(found) = mov(input) {
            return Ok(found);
        }
        if let Ok(found) = jmp(input, labels) {
            return Ok(found);
        }
        if let Ok((rest, x)) = unary("slp", input) {
            return Ok((rest, Opcode::Slp(x)));
        }
        if let Ok((rest, x)) = unary("add", input) {
            return Ok((rest, Opcode::Add(x)));
        }
        if let Ok((rest, x)) = unary("sub", input) {
            return Ok((rest, Opcode::Sub(x)));
        }
        if let Ok((rest, x)) = unary("mul", input) {
            return Ok((rest, Opcode::Mul(x)));
        }
        if let Some(rest) = tag("not", input) {
            return Ok((rest, Opcode::Not));
        }
        late(input)
    }
}

impl LOC {
    /// Reads the label of a line and the space behind it.
    pub fn lex_label<'a>(input: &'a str) -> (r: Result<(&'a str, Label), LexError>)
        ensures
            match r {
                Ok((rest, label)) => labelled(input@) == Some((label.0@, rest@)),
                Err(_) => labelled(input@) is None,
            },
    {
        let (a, label) = match Label::lex_from_str(input) {
            Ok(found) => found,
            Err(e) => {
                return Err(e);
            },
        };
        match tag(" ", a) {
            Some(rest) => Ok((rest, label)),
            None => Err(LexError),
        }
    }

    /// Reads the guard of a line and the space behind it.
    pub fn lex_guard<'a>(input: &'a str) -> (r: Result<(&'a str, Condition), LexError>)
        ensures
            match r {
                Ok((rest, cond)) => guarded(input@) == Some((cond, rest@)),
                Err(_) => guarded(input@) is None,
            },
    {
        let (a, cond) = match Condition::lex_from_str(input) {
            Ok(found) => found,
            Err(e) => {
                return Err(e);
            },
        };
        match tag(" ", a) {
            Some(rest) => Ok((rest, cond)),
            None => Err(LexError),
        }
    }

    /// Reads a line of code at the start of `input`: its label, its guard
    /// and its operation, as far as they are there, and hands the line back
    /// with what is left of `input`.  `labels` holds the label of each line
    /// of the program.
    pub fn lex_from_str<'a>(input: &'a str, labels: &Vec<Option<Label>>) -> (r: (&'a str, LOC))
        ensures
            line_syntax(input@, names_of(labels@)) == (line_of(r.1), r.0@),
    {
        let (s1, lab) = match LOC::lex_label(input) {
            Ok((rest, label)) => (rest, Some(label)),
            Err(_) => (input, None),
        };
        let (s2, cond) = match LOC::lex_guard(s1) {
            Ok((rest, cond)) => (rest, Some(cond)),
            Err(_) => (s1, None),
        };
        let (s3, op) = match Opcode::lex_from_str(s2, labels) {
            Ok((rest, op)) => (rest, Some(op)),
            Err(_) => (s2, None),
        };
        (s3, LOC { cond, lab, op })
    }

    /// Reads the text `s` as a line of code.  Every text is a line: what
    /// does not read as a label, a guard or an operation is ignored.
    pub fn from_str(s: &str, labels: &Vec<Option<Label>>) -> (r: Result<LOC, LexError>)
        ensures
            r is Ok,
            line_of(r.unwrap()) == line_syntax(s@, names_of(labels@)).0,
    {
        let (_, loc) = LOC::lex_from_str(s, labels);
        Ok(loc)
    }
}

/// The label of each of the lines `lines`.
pub fn labels_of(lines: &Vec<String>) -> (r: Vec<Option<Label>>)
    ensures
        names_of(r@) == label_table(lines@),
{
    let mut labels: Vec<Option<Label>> = Vec::new();
    let mut i: usize = 0;
    while i < lines.len()
        invariant
            i <= lines.len(),
            labels.len() == i,
            forall|k: int|
                0 <= k < i ==> name_of(#[trigger] labels@[k]) == optional(
                    labelled(lines@[k]@),
                    lines@[k]@,
                ).0,
        decreases lines.len() - i,
    {
        let label = match LOC::lex_label(lines[i].as_str()) {
            Ok((_, label)) => Some(label),
            Err(_) => None,
        };
        labels.push(label);
        i = i + 1;
    }
    assert(names_of(labels@) =~= label_table(lines@));
    labels
}

/// Reads the program that `lines` write, line by line.  A jump to a label
/// is read as a jump to the first line that carries the label.
pub fn assemble(lines: &Vec<String>) -> (r: Vec<LOC>)
    ensures
        r.len() == lines.len(),
        forall|i: int|
            0 <= i < r.len() ==> line_of(#[trigger] r[i]) == line_syntax(
                lines[i]@,
                label_table(lines@),
            ).0,
{
    let labels = labels_of(lines);
    let mut program: Vec<LOC> = Vec::new();
    let mut i: usize = 0;
    while i < lines.len()
        invariant
            i <= lines.len(),
            program.len() == i,
            names_of(labels@) == label_table(lines@),
            forall|k: int|
                0 <= k < i ==> line_of(#[trigger] program[k]) == line_syntax(
                    lines[k]@,
                    label_table(lines@),
                ).0,
        decreases lines.len() - i,
    {
        let (_, loc) = LOC::lex_from_str(lines[i].as_str(), &labels);
        program.push(loc);
        i = i + 1;
    }
    program
}

impl Pin {
    /// Reads a pin at the start of `input`, and hands it back with what is
    /// left of `input`.
    pub fn lex_from_str<'a>(input: &'a str) -> (r: Result<(&'a str, Pin), LexError>)
        ensures
            match r {
                Ok((rest, pin)) => pin_syntax(input@) == Some((pin, rest@)),
                Err(_) => pin_syntax(input@) is None,
            },
    {
        if let Some(rest) = tag("p0", input) {
            return Ok((rest, Pin::P0));
        }
        if let Some(rest) = tag("p1", input) {
            return Ok((rest, Pin::P1));
        }
        if let Some(rest) = tag("x0", input) {
            return Ok((rest, Pin::X0));
        }
        if let Some(rest) = tag("x1", input) {
            return Ok((rest, Pin::X1));
        }
        if let Some(rest) = tag("x2", input) {
            return Ok((rest, Pin::X2));
        }
        if let Some(rest) = tag("x3", input) {
            return Ok((rest, Pin::X3));
        }
        Err(LexError)
    }
}

impl Register {
    /// Reads a register at the start of `input`, and hands it back with
    /// what is left of `input`.
    pub fn lex_from_str<'a>(input: &'a str) -> (r: Result<(&'a str, Register), LexError>)
        ensures
            match r {
                Ok((rest, reg)) => register_syntax(input@) == Some((reg, rest@)),
                Err(_) => register_syntax(input@) is None,
            },
    {
        if let Some(rest) = tag("acc", input) {
            return Ok((rest, Register::Acc));
        }
        if let Some(rest) = tag("dat", input) {
            return Ok((rest, Register::Dat));
        }
        match Pin::lex_from_str(input) {
            Ok((rest, pin)) => Ok((rest, Register::Pin(pin))),
            Err(e) => Err(e),
        }
    }
}

impl Label {
    /// Reads a label at the start of `input`: the text in front of the
    /// first colon, which is the name, and the colon.
    pub fn lex_from_str<'a>(input: &'a str) -> (r: Result<(&'a str, Label), LexError>)
        ensures
            match r {
                Ok((rest, label)) => label_syntax(input@) == Some((label.0@, rest@)),
                Err(_) => label_syntax(input@) is None,
            },
    {
        let (name, behind) = match take_till_colon(input) {
            Some(split) => split,
            None => {
                return Err(LexError);
            },
        };
        match tag(":", behind) {
            Some(rest) => Ok((rest, Label(name.to_owned()))),
            None => Err(LexError),
        }
    }
}

impl Condition {
    /// Reads a guard at the start of `input`, and hands it back with what
    /// is left of `input`.
    pub fn lex_from_str<'a>(input: &'a str) -> (r: Result<(&'a str, Condition), LexError>)
        ensures
            match r {
                Ok((rest, cond)) => condition_syntax(input@) == Some((cond, rest@)),
                Err(_) => condition_syntax(input@) is None,
            },
    {
        if let Some(rest) = tag("+", input) {
            return Ok((rest, Condition(true)));
        }
        if let Some(rest) = tag("-", input) {
            return Ok((rest, Condition(false)));
        }
        Err(LexError)
    }
}

impl RegImm {
    /// Reads an operand at the start of `input`, and hands it back with
    /// what is left of `input`.
    pub fn lex_from_str<'a>(input: &'a str) -> (r: Result<(&'a str, RegImm), LexError>)
        ensures
            match r {
                Ok((rest, operand)) => regimm_syntax(input@) == Some((operand, rest@)),
                Err(_) => regimm_syntax(input@) is None,
            },
    {
        match Register::lex_from_str(input) {
            Ok((rest, reg)) => {
                return Ok((rest, RegImm::Reg(reg)));
            },
            Err(_) => {},
        }
        match number(input) {
            Some((value, rest)) => if value <= 32767 {
                Ok((rest, RegImm::Imm(value as i16)))
            } else {
                Err(LexError)
            },
            None => Err(LexError),
        }
    }
}

/// A line that says nothing.
pub open spec fn silent() -> Line {
    Line { lab: None, cond: None, op: None }
}

/// Brings `lines` to `slots` lines by adding lines that say nothing behind
/// them; `None` exactly where there are more than `slots` lines.
pub fn pad(lines: Vec<LOC>, slots: usize) -> (r: Option<Vec<LOC>>)
    ensures
        r is Some <==> lines.len() <= slots,
        r is Some ==> {
            &&& r.unwrap().len() == slots
            &&& forall|i: int| 0 <= i < lines.len() ==> #[trigger] r.unwrap()[i] == lines[i]
            &&& forall|i: int|
                lines.len() <= i < slots ==> line_of(#[trigger] r.unwrap()[i]) == silent()
        },
{
    if lines.len() > slots {
        return None;
    }
    let mut program = lines;
    while program.len() < slots
        invariant
            lines.len() <= program.len() <= slots,
            forall|i: int| 0 <= i < lines.len() ==> #[trigger] program[i] == lines[i],
            forall|i: int|
                lines.len() <= i < program.len() ==> line_of(#[trigger] program[i]) == silent(),
        decreases slots - program.len(),
    {
        program.push(LOC { cond: None, lab: None, op: None });
    }
    Some(program)
}

/// Calls `TryFrom<Vec<T>>` of the arrays on `lines`.  Trusted: the call
/// succeeds exactly where `lines` has `N` elements, and the array then
/// holds those elements in their order.
#[verifier::external_body]
fn into_array<const N: usize>(lines: Vec<LOC>) -> (r: Option<[LOC; N]>)
    ensures
        (r is Some) == (lines.len() == N),
        r is Some ==> r.unwrap()@ == lines@,
{
    match <[LOC; N]>::try_from(lines) {
        Ok(array) => Some(array),
        Err(_) => None,
    }
}

/// Reads the program that `lines` write for a controller of `N` slots: the
/// lines as `assemble` reads them, and lines that say nothing in the slots
/// behind them.  `None` exactly where there are more than `N` lines.
pub fn program<const N: usize>(lines: &Vec<String>) -> (r: Option<[LOC; N]>)
    ensures
        r is Some <==> lines.len() <= N,
        r is Some ==> forall|i: int|
            0 <= i < N ==> line_of(#[trigger] r.unwrap()@[i]) == if i < lines.len() {
                line_syntax(lines[i]@, label_table(lines@)).0
            } else {
                silent()
            },
{
    match pad(assemble(lines), N) {
        Some(padded) => into_array(padded),
        None => None,
    }
}

} // verus!
