//! The two-pass assembler.
//!
//! A source line arrives as a (first token, optional second token) pair. The
//! first pass walks the lines in order: a lone token ending in `':'` declares
//! a label at the current instruction index and emits nothing; every other
//! line is decoded and increments the index. The second pass rewrites each
//! control-flow instruction that refers to a label by name into its resolved
//! form carrying the label's recorded index, and fails on an undeclared name.
//! Two passes are needed because a jump may refer to a label declared later.

use vstd::prelude::*;
use vstd::string::StrSliceExecFns;

use crate::decode::{decodable, decode_fails, decoded, map_op, view_arg};
use crate::errors::VMError;
use crate::instructions::{is_unresolved, Instruction};
use crate::labels::LabelTable;

verus! {

/// True of a line that declares a label: a single token of at least one
/// character whose last character is `':'`.
pub open spec fn is_label_decl(l: (String, Option<String>)) -> bool {
    l.1 is None && l.0@.len() > 0 && l.0@.last() == ':'
}

/// The name a label declaration declares: the token without its colon.
pub open spec fn label_name(l: (String, Option<String>)) -> Seq<char> {
    l.0@.drop_last()
}

/// The view of a line's optional argument token.
pub open spec fn line_arg(l: (String, Option<String>)) -> Option<Seq<char>> {
    match l.1 {
        Some(a) => Some(a@),
        None => None,
    }
}

/// The lines that decode to instructions: every line that is not a label
/// declaration, in source order.
pub open spec fn instr_lines(lines: Seq<(String, Option<String>)>) -> Seq<(String, Option<String>)>
    decreases lines.len(),
{
    if lines.len() == 0 {
        Seq::empty()
    } else {
        let rest = instr_lines(lines.drop_last());
        if is_label_decl(lines.last()) {
            rest
        } else {
            rest.push(lines.last())
        }
    }
}

/// The label table a sequence of lines declares: each label maps to the
/// number of instruction lines before it, and a later declaration of the
/// same name replaces an earlier one.
pub open spec fn label_map(lines: Seq<(String, Option<String>)>) -> Map<Seq<char>, usize>
    decreases lines.len(),
{
    if lines.len() == 0 {
        Map::empty()
    } else {
        let rest = label_map(lines.drop_last());
        if is_label_decl(lines.last()) {
            rest.insert(label_name(lines.last()), instr_lines(lines.drop_last()).len() as usize)
        } else {
            rest
        }
    }
}

/// True when every line is a label declaration or decodes successfully.
pub open spec fn lines_decodable(lines: Seq<(String, Option<String>)>) -> bool {
    forall|j: int|
        0 <= j < lines.len() ==> {
            ||| is_label_decl(#[trigger] lines[j])
            ||| decodable(lines[j].0@, line_arg(lines[j]))
        }
}

/// Relates a sequence of lines to the raw instructions its first pass emits.
pub open spec fn pass1_ok(lines: Seq<(String, Option<String>)>, raw: Seq<Instruction>) -> bool {
    &&& raw.len() == instr_lines(lines).len()
    &&& forall|j: int|
        0 <= j < raw.len() ==> decoded(
            instr_lines(lines)[j].0@,
            line_arg(instr_lines(lines)[j]),
            #[trigger] raw[j],
        )
}

/// Relates a sequence of lines to the error its first pass raises: the first
/// line that is neither a label declaration nor decodable determines it.
pub open spec fn pass1_fails(lines: Seq<(String, Option<String>)>, e: VMError) -> bool {
    exists|j: int|
        {
            &&& 0 <= j < lines.len()
            &&& !is_label_decl(#[trigger] lines[j])
            &&& !decodable(lines[j].0@, line_arg(lines[j]))
            &&& decode_fails(lines[j].0@, line_arg(lines[j]), e)
            &&& forall|k: int|
                0 <= k < j ==> {
                    ||| is_label_decl(#[trigger] lines[k])
                    ||| decodable(lines[k].0@, line_arg(lines[k]))
                }
        }
}

/// The label an instruction still refers to by name, if any.
pub open spec fn referenced_label(i: Instruction) -> Option<Seq<char>> {
    match i {
        Instruction::Jump(l) => Some(l@),
        Instruction::JumpZ(l) => Some(l@),
        Instruction::JumpNotZ(l) => Some(l@),
        Instruction::Call(l) => Some(l@),
        _ => None,
    }
}

/// True when an instruction refers to no label, or to a declared one.
pub open spec fn resolvable(i: Instruction, t: Map<Seq<char>, usize>) -> bool {
    match referenced_label(i) {
        Some(l) => t.contains_key(l),
        None => true,
    }
}

/// Relates a raw instruction to its resolved form under a label table: a
/// label reference becomes the recorded index, anything else is unchanged.
pub open spec fn resolves_to(i: Instruction, t: Map<Seq<char>, usize>, r: Instruction) -> bool {
    match i {
        Instruction::Jump(l) => t.contains_key(l@) && r == Instruction::JumpResolved(t[l@]),
        Instruction::JumpZ(l) => t.contains_key(l@) && r == Instruction::JumpZResolved(t[l@]),
        Instruction::JumpNotZ(l) => t.contains_key(l@) && r == Instruction::JumpNotZResolved(
            t[l@],
        ),
        Instruction::Call(l) => t.contains_key(l@) && r == Instruction::CallResolved(t[l@]),
        _ => r == i,
    }
}

/// Relates a raw program to its fully resolved form.
pub open spec fn resolved_all(
    raw: Seq<Instruction>,
    t: Map<Seq<char>, usize>,
    out: Seq<Instruction>,
) -> bool {
    &&& out.len() == raw.len()
    &&& forall|j: int| 0 <= j < raw.len() ==> resolves_to(#[trigger] raw[j], t, out[j])
}

/// Relates a raw program to the error its resolution raises: the first
/// instruction whose label is undeclared names that label.
pub open spec fn resolve_fails(
    raw: Seq<Instruction>,
    t: Map<Seq<char>, usize>,
    e: VMError,
) -> bool {
    exists|j: int|
        {
            &&& 0 <= j < raw.len()
            &&& !resolvable(#[trigger] raw[j], t)
            &&& (e matches VMError::UndefinedLabel(l) && Some(l@) == referenced_label(raw[j]))
            &&& forall|k: int| 0 <= k < j ==> resolvable(#[trigger] raw[k], t)
        }
}

/// Law: a fully resolved program holds no instruction that still refers to
/// a label by name, so the engine's unresolved-instruction failure cannot
/// arise from a program the assembler produced.
pub proof fn lemma_resolution_complete(
    raw: Seq<Instruction>,
    t: Map<Seq<char>, usize>,
    out: Seq<Instruction>,
)
    requires
        resolved_all(raw, t, out),
    ensures
        forall|j: int| 0 <= j < out.len() ==> !is_unresolved(#[trigger] out[j]),
{
    assert forall|j: int| 0 <= j < out.len() implies !is_unresolved(#[trigger] out[j]) by {
        assert(resolves_to(raw[j], t, out[j]));
    }
}

/// The first pass: builds the label table and decodes every instruction
/// line, failing on the first line that decodes to an error.
pub fn first_pass(lines: &Vec<(String, Option<String>)>) -> (r: Result<
    (Vec<Instruction>, LabelTable),
    VMError,
>)
    ensures
        match r {
            Ok(p) => pass1_ok(lines@, p.0@) && p.1@ == label_map(lines@),
            Err(e) => pass1_fails(lines@, e),
        },
        r is Ok <==> lines_decodable(lines@),
{
    let mut raw: Vec<Instruction> = Vec::new();
    let mut table = LabelTable::new();
    let mut i: usize = 0;
    while i < lines.len()
        invariant
            i <= lines@.len(),
            pass1_ok(lines@.take(i as int), raw@),
            table@ == label_map(lines@.take(i as int)),
            lines_decodable(lines@.take(i as int)),
        decreases lines@.len() - i,
    {
        proof {
            assert(lines@.take(i + 1).drop_last() =~= lines@.take(i as int));
            assert(lines@.take(i + 1).last() == lines@[i as int]);
        }
        let line = &lines[i];
        let n = line.0.as_str().unicode_len();
        if line.1.is_none() && n > 0 && line.0.as_str().get_char(n - 1) == ':' {
            let name = line.0.as_str().substring_char(0, n - 1).to_owned();
            proof {
                assert(name@ =~= label_name(lines@[i as int]));
            }
            table.insert(name, raw.len());
        } else {
            let arg: Option<&str> = match &line.1 {
                Some(a) => Some(a.as_str()),
                None => None,
            };
            match map_op((line.0.as_str(), arg)) {
                Ok(ins) => {
                    proof {
                        assert(view_arg(arg) == line_arg(lines@[i as int]));
                    }
                    raw.push(ins);
                },
                Err(e) => {
                    proof {
                        assert(!is_label_decl(lines@[i as int]));
                        assert(!decodable(lines@[i as int].0@, line_arg(lines@[i as int])));
                        assert(decode_fails(lines@[i as int].0@, line_arg(lines@[i as int]), e));
                        assert forall|k: int| 0 <= k < i implies {
                            ||| is_label_decl(#[trigger] lines@[k])
                            ||| decodable(lines@[k].0@, line_arg(lines@[k]))
                        } by {
                            assert(lines@.take(i as int)[k] == lines@[k]);
                        }
                        assert(pass1_fails(lines@, e));
                    }
                    return Err(e);
                },
            }
        }
        i = i + 1;
    }
    proof {
        assert(lines@.take(lines@.len() as int) =~= lines@);
    }
    Ok((raw, table))
}

/// The second pass: rewrites every label reference into its resolved form,
/// failing on the first reference to an undeclared label.
pub fn resolve(raw: &Vec<Instruction>, table: &LabelTable) -> (r: Result<Vec<Instruction>, VMError>)
    ensures
        match r {
            Ok(out) => resolved_all(raw@, table@, out@),
            Err(e) => resolve_fails(raw@, table@, e),
        },
        r is Ok <==> (forall|j: int| 0 <= j < raw@.len() ==> resolvable(#[trigger] raw@[j], table@)),
{
    let mut out: Vec<Instruction> = Vec::new();
    let mut i: usize = 0;
    while i < raw.len()
        invariant
            i <= raw@.len(),
            out@.len() == i,
            forall|j: int| 0 <= j < i ==> resolves_to(#[trigger] raw@[j], table@, out@[j]),
            forall|j: int| 0 <= j < i ==> resolvable(#[trigger] raw@[j], table@),
        decreases raw@.len() - i,
    {
        let next: Instruction = match &raw[i] {
            Instruction::Jump(l) => match table.lookup(l.as_str()) {
                Some(a) => Instruction::JumpResolved(a),
                None => return Err(VMError::UndefinedLabel(l.clone())),
            },
            Instruction::JumpZ(l) => match table.lookup(l.as_str()) {
                Some(a) => Instruction::JumpZResolved(a),
                None => return Err(VMError::UndefinedLabel(l.clone())),
            },
            Instruction::JumpNotZ(l) => match table.lookup(l.as_str()) {
                Some(a) => Instruction::JumpNotZResolved(a),
                None => return Err(VMError::UndefinedLabel(l.clone())),
            },
            Instruction::Call(l) => match table.lookup(l.as_str()) {
                Some(a) => Instruction::CallResolved(a),
                None => return Err(VMError::UndefinedLabel(l.clone())),
            },
            Instruction::Swap => Instruction::Swap,
            Instruction::Push(v) => Instruction::Push(*v),
            Instruction::Pop => Instruction::Pop,
            Instruction::Print => Instruction::Print,
            Instruction::Add => Instruction::Add,
            Instruction::Sub => Instruction::Sub,
            Instruction::Mul => Instruction::Mul,
            Instruction::Div => Instruction::Div,
            Instruction::Load => Instruction::Load,
            Instruction::Store => Instruction::Store,
            Instruction::Ret => Instruction::Ret,
            Instruction::JumpResolved(a) => Instruction::JumpResolved(*a),
            Instruction::JumpZResolved(a) => Instruction::JumpZResolved(*a),
            Instruction::JumpNotZResolved(a) => Instruction::JumpNotZResolved(*a),
            Instruction::CallResolved(a) => Instruction::CallResolved(*a),
            Instruction::Halt => Instruction::Halt,
            Instruction::Label(l) => Instruction::Label(l.clone()),
        };
        out.push(next);
        i = i + 1;
    }
    Ok(out)
}

/// Assembles a token stream into an executable program: the first pass
/// decodes and records labels, the second resolves every label reference.
pub fn build_program(lines: &Vec<(String, Option<String>)>) -> (r: Result<Vec<Instruction>, VMError>)
    ensures
        match r {
            Ok(prog) => exists|raw: Seq<Instruction>|
                #[trigger] pass1_ok(lines@, raw) && resolved_all(raw, label_map(lines@), prog@),
            Err(e) => pass1_fails(lines@, e) || (exists|raw: Seq<Instruction>|
                #[trigger] pass1_ok(lines@, raw) && resolve_fails(raw, label_map(lines@), e)),
        },
{
    match first_pass(lines) {
        Ok((raw, table)) => match resolve(&raw, &table) {
            Ok(out) => {
                proof {
                    assert(pass1_ok(lines@, raw@));
                }
                Ok(out)
            },
            Err(e) => {
                proof {
                    assert(pass1_ok(lines@, raw@));
                }
                Err(e)
            },
        },
        Err(e) => Err(e),
    }
}

} // verus!
