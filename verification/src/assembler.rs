//! The two-pass assembler. Pass 1 walks the normalized lines once,
//! registering `define` directives and labels in the symbol table and
//! queueing every instruction with its program-counter order. Pass 2
//! expands pseudo-instructions, resolves every token, validates operand
//! count and field ranges, and packs each instruction into a 16-bit word
//! rendered as a 16-character binary string.

use vstd::prelude::*;
use crate::encode::{
    bin16, encode_fields, encode_fields_exec, lemma_prepare_tokens_nonempty, operand_count,
    operand_count_exec, prepare_tokens, prepare_tokens_exec, render_word, vals_view,
};
use crate::errors::{AsmError, ErrorKind, SpecError, SpecErrorKind};
use crate::normalize::{clean_lines, clean_up, clean_up_lines, cleaned_view, normalize_source};
use crate::strutil::token_is;
use crate::symtab::{
    define_value, parse_define_value, seed_map, seeded_table, spec_resolve, ResolveError,
    SymbolTable,
};
use crate::tokens::{lemma_tokenize_tokens_nonempty, tokenize, tokenize_line};

verus! {

/// The largest number of source lines one assembly run accepts: the
/// program counter is a 32-bit signed counter, and every line holds at most
/// one instruction.
pub const MAX_SOURCE_LINES: usize = 0x7fff_ffff;

/// One queued instruction: the 0-based index of its source line, the
/// normalized text of that line for diagnostics, and its tokens.
pub struct Instruction {
    pub line: usize,
    pub text: String,
    pub toks: Vec<String>,
}

/// The specification-level image of an `Instruction`.
pub struct SpecInstruction {
    pub line: int,
    pub text: Seq<char>,
    pub toks: Seq<Seq<char>>,
}

impl View for Instruction {
    type V = SpecInstruction;

    open spec fn view(&self) -> SpecInstruction {
        SpecInstruction { line: self.line as int, text: self.text@, toks: self.toks.deep_view() }
    }
}

pub open spec fn instrs_view(v: Seq<Instruction>) -> Seq<SpecInstruction> {
    v.map_values(|x: Instruction| x@)
}

/// Pass 1 over the normalized lines from the front: `define` lines extend
/// the table without touching the program counter; a leading `.label` binds
/// the label to the current counter, and any tokens after it count as an
/// instruction; every other line is an instruction. Each instruction
/// occupies one counter value.
pub open spec fn pass1_from(
    cleaned: Seq<(int, Seq<char>)>,
    m: Map<Seq<char>, int>,
    pc: int,
    acc: Seq<SpecInstruction>,
) -> (Map<Seq<char>, int>, int, Seq<SpecInstruction>)
    decreases cleaned.len(),
{
    if cleaned.len() == 0 {
        (m, pc, acc)
    } else {
        let idx = cleaned[0].0;
        let text = cleaned[0].1;
        let toks = tokenize(text);
        let rest = cleaned.drop_first();
        if toks.len() == 0 {
            pass1_from(rest, m, pc, acc)
        } else if toks[0] == "define"@ {
            if toks.len() >= 3 {
                match parse_define_value(toks[2]) {
                    Some(v) => pass1_from(rest, m.insert(toks[1], v), pc, acc),
                    None => pass1_from(rest, m, pc, acc),
                }
            } else {
                pass1_from(rest, m, pc, acc)
            }
        } else if toks[0][0] == '.' {
            let m2 = m.insert(toks[0], pc);
            if toks.len() > 1 {
                pass1_from(
                    rest,
                    m2,
                    pc + 1,
                    acc.push(SpecInstruction { line: idx, text, toks: toks.drop_first() }),
                )
            } else {
                pass1_from(rest, m2, pc, acc)
            }
        } else {
            pass1_from(rest, m, pc + 1, acc.push(SpecInstruction { line: idx, text, toks }))
        }
    }
}

/// Pass 1 from the seeded table and a program counter of 0.
pub open spec fn pass1(cleaned: Seq<(int, Seq<char>)>) -> (
    Map<Seq<char>, int>,
    int,
    Seq<SpecInstruction>,
) {
    pass1_from(cleaned, seed_map(), 0, Seq::empty())
}

/// Resolve every token of an instruction in order; the first failure wins
/// and names the token it struck.
pub open spec fn resolve_tokens(m: Map<Seq<char>, int>, toks: Seq<Seq<char>>) -> Result<
    Seq<int>,
    SpecErrorKind,
>
    decreases toks.len(),
{
    if toks.len() == 0 {
        Ok(Seq::empty())
    } else {
        match spec_resolve(m, toks[0]) {
            Ok(v) => match resolve_tokens(m, toks.drop_first()) {
                Ok(vs) => Ok(seq![v] + vs),
                Err(e) => Err(e),
            },
            Err(ResolveError::UnresolvedSymbol) => Err(
                SpecErrorKind::UnresolvedSymbol { symbol: toks[0] },
            ),
            Err(ResolveError::NumberParseFailure) => Err(
                SpecErrorKind::NumberParseFailure { token: toks[0] },
            ),
        }
    }
}

/// Encode one queued instruction: prepare its tokens, resolve them all,
/// check the operand count against the opcode's class, and pack the word.
pub open spec fn encode_instruction(m: Map<Seq<char>, int>, toks: Seq<Seq<char>>) -> Result<
    int,
    SpecErrorKind,
>
    recommends
        toks.len() > 0,
{
    let p = prepare_tokens(toks);
    match resolve_tokens(m, p) {
        Err(e) => Err(e),
        Ok(vals) => if vals.len() == 0 {
            Err(SpecErrorKind::OperandCountMismatch { opcode: 0, expected: 1, actual: 0 })
        } else {
            let op = vals[0];
            if vals.len() != operand_count(op) {
                Err(
                    SpecErrorKind::OperandCountMismatch {
                        opcode: op,
                        expected: operand_count(op),
                        actual: vals.len() as int,
                    },
                )
            } else {
                encode_fields(op, vals)
            }
        },
    }
}

/// Pass 2 over the queued instructions from the front: each one becomes 16
/// binary digits; the first failure aborts the run, carrying the 1-based
/// source line number and the normalized line text.
pub open spec fn pass2_from(m: Map<Seq<char>, int>, instrs: Seq<SpecInstruction>) -> Result<
    Seq<Seq<char>>,
    SpecError,
>
    decreases instrs.len(),
{
    if instrs.len() == 0 {
        Ok(Seq::empty())
    } else {
        match encode_instruction(m, instrs[0].toks) {
            Ok(w) => match pass2_from(m, instrs.drop_first()) {
                Ok(ws) => Ok(seq![bin16(w)] + ws),
                Err(e) => Err(e),
            },
            Err(k) => Err(SpecError { kind: k, line: instrs[0].line + 1, text: instrs[0].text }),
        }
    }
}

/// The whole assembler: normalize, run pass 1 from the seeded table, run
/// pass 2; on success one 16-character binary string per instruction,
/// indexed by memory address.
pub open spec fn spec_assemble(lines: Seq<Seq<char>>) -> Result<Seq<Seq<char>>, SpecError> {
    let cleaned = clean_lines(lines);
    let p1 = pass1(cleaned);
    pass2_from(p1.0, p1.2)
}

/// Copy the tokens from `start` on.
fn tokens_from(toks: &Vec<String>, start: usize) -> (r: Vec<String>)
    requires
        start <= toks@.len(),
    ensures
        r.deep_view() == toks.deep_view().skip(start as int),
{
    let mut r: Vec<String> = Vec::new();
    let n = toks.len();
    let mut i: usize = start;
    proof {
        assert(r.deep_view() =~= toks.deep_view().subrange(start as int, start as int));
    }
    while i < n
        invariant
            n == toks@.len(),
            start <= i <= n,
            r.deep_view() =~= toks.deep_view().subrange(start as int, i as int),
        decreases n - i,
    {
        let t = toks[i].clone();
        assert(t@ == toks.deep_view()[i as int]);
        let ghost odv = r.deep_view();
        r.push(t);
        proof {
            assert(r.deep_view() =~= odv.push(t@));
            assert(odv.push(t@) =~= toks.deep_view().subrange(start as int, i + 1));
        }
        i = i + 1;
    }
    proof {
        assert(toks.deep_view().subrange(start as int, n as int) =~= toks.deep_view().skip(
            start as int,
        ));
    }
    r
}

/// Pass 1: collect definitions and labels into the table, queue the
/// instructions.
pub fn run_pass1(cleaned: &Vec<(usize, String)>, table: &mut SymbolTable) -> (instrs: Vec<
    Instruction,
>)
    requires
        cleaned@.len() <= 0x7fff_ffff,
        forall|k: int| 0 <= k < cleaned@.len() ==> (#[trigger] cleaned@[k]).0 < 0x7fff_ffff,
    ensures
        final(table)@ == pass1_from(cleaned_view(cleaned@), old(table)@, 0, Seq::empty()).0,
        instrs_view(instrs@) == pass1_from(cleaned_view(cleaned@), old(table)@, 0, Seq::empty()).2,
        forall|k: int| 0 <= k < instrs@.len() ==> (#[trigger] instrs@[k])@.toks.len() > 0,
        forall|k: int| 0 <= k < instrs@.len() ==> (#[trigger] instrs@[k]).line < 0x7fff_ffff,
{
    let ghost cv = cleaned_view(cleaned@);
    let ghost m0 = old(table)@;
    let mut instrs: Vec<Instruction> = Vec::new();
    let n = cleaned.len();
    let mut pc: i32 = 0;
    let mut i: usize = 0;
    proof {
        assert(cv.skip(0) =~= cv);
        assert(instrs_view(instrs@) =~= Seq::<SpecInstruction>::empty());
    }
    while i < n
        invariant
            n == cleaned@.len(),
            n <= 0x7fff_ffff,
            forall|k: int| 0 <= k < cleaned@.len() ==> (#[trigger] cleaned@[k]).0 < 0x7fff_ffff,
            0 <= i <= n,
            0 <= pc <= i,
            cv == cleaned_view(cleaned@),
            pass1_from(cv, m0, 0, Seq::empty()) == pass1_from(
                cv.skip(i as int),
                table@,
                pc as int,
                instrs_view(instrs@),
            ),
            forall|k: int| 0 <= k < instrs@.len() ==> (#[trigger] instrs@[k])@.toks.len() > 0,
            forall|k: int| 0 <= k < instrs@.len() ==> (#[trigger] instrs@[k]).line < 0x7fff_ffff,
        decreases n - i,
    {
        proof {
            assert(cv.skip(i as int).len() > 0);
            assert(cv.skip(i as int)[0] == cv[i as int]);
            assert(cv[i as int] == (cleaned@[i as int].0 as int, cleaned@[i as int].1@));
            assert(cv.skip(i as int).drop_first() =~= cv.skip(i as int + 1));
        }
        let idx = cleaned[i].0;
        let toks = tokenize_line(cleaned[i].1.as_str());
        let ghost tv = tokenize(cv[i as int].1);
        assert(toks.deep_view() == tv);
        proof {
            lemma_tokenize_tokens_nonempty(cv[i as int].1);
        }
        if toks.len() == 0 {
        } else if token_is(&toks[0], "define") {
            assert(tv[0] == "define"@);
            if toks.len() >= 3 {
                match define_value(&toks[2]) {
                    Some(v) => {
                        table.set(toks[1].clone(), v);
                    },
                    None => {},
                }
            }
        } else {
            assert(tv[0] != "define"@);
            assert(tv[0].len() > 0);
            let c0 = toks[0].as_str().get_char(0);
            assert(c0 == tv[0][0]);
            if c0 == '.' {
                table.set(toks[0].clone(), pc);
                if toks.len() > 1 {
                    let rest = tokens_from(&toks, 1);
                    proof {
                        assert(rest.deep_view() =~= tv.drop_first());
                    }
                    let inst = Instruction {
                        line: idx,
                        text: cleaned[i].1.clone(),
                        toks: rest,
                    };
                    assert(inst@ == SpecInstruction {
                        line: cv[i as int].0,
                        text: cv[i as int].1,
                        toks: tv.drop_first(),
                    });
                    let ghost ov = instrs_view(instrs@);
                    instrs.push(inst);
                    proof {
                        assert(instrs_view(instrs@) =~= ov.push(inst@));
                    }
                    pc = pc + 1;
                }
            } else {
                let inst = Instruction { line: idx, text: cleaned[i].1.clone(), toks };
                assert(inst@ == SpecInstruction {
                    line: cv[i as int].0,
                    text: cv[i as int].1,
                    toks: tv,
                });
                let ghost ov = instrs_view(instrs@);
                instrs.push(inst);
                proof {
                    assert(instrs_view(instrs@) =~= ov.push(inst@));
                }
                pc = pc + 1;
            }
        }
        i = i + 1;
    }
    proof {
        assert(cv.skip(n as int) =~= Seq::<(int, Seq<char>)>::empty());
    }
    instrs
}

/// Encode one instruction against the finished table.
pub fn encode_instruction_exec(table: &SymbolTable, toks: &Vec<String>) -> (r: Result<
    u16,
    ErrorKind,
>)
    requires
        toks.deep_view().len() > 0,
    ensures
        match r {
            Ok(w) => encode_instruction(table@, toks.deep_view()) == Ok::<int, SpecErrorKind>(
                w as int,
            ),
            Err(e) => encode_instruction(table@, toks.deep_view()) == Err::<int, SpecErrorKind>(
                e@,
            ),
        },
{
    let ghost m = table@;
    let ghost pv = prepare_tokens(toks.deep_view());
    proof {
        lemma_prepare_tokens_nonempty(toks.deep_view());
    }
    let p = prepare_tokens_exec(toks);
    let n = p.len();
    assert(n == pv.len());
    let mut vals: Vec<i32> = Vec::new();
    let mut i: usize = 0;
    proof {
        assert(pv.skip(0) =~= pv);
        assert(vals_view(vals@) =~= Seq::<int>::empty());
        assert(forall|vs: Seq<int>| Seq::<int>::empty() + vs =~= vs);
    }
    while i < n
        invariant
            n == pv.len(),
            n == p@.len(),
            0 <= i <= n,
            m == table@,
            pv == prepare_tokens(toks.deep_view()),
            p.deep_view() == pv,
            vals@.len() == i,
            resolve_tokens(m, pv) == (match resolve_tokens(m, pv.skip(i as int)) {
                Ok(vs) => Ok::<Seq<int>, SpecErrorKind>(vals_view(vals@) + vs),
                Err(e) => Err::<Seq<int>, SpecErrorKind>(e),
            }),
        decreases n - i,
    {
        proof {
            assert(pv.skip(i as int).len() > 0);
            assert(pv.skip(i as int)[0] == pv[i as int]);
            assert(pv.skip(i as int).drop_first() =~= pv.skip(i as int + 1));
            assert(p@[i as int]@ == pv[i as int]);
        }
        match table.resolve(&p[i]) {
            Ok(v) => {
                let ghost ovals = vals_view(vals@);
                vals.push(v);
                proof {
                    assert(vals_view(vals@) =~= ovals.push(v as int));
                    assert(forall|vs: Seq<int>|
                        ovals + (seq![v as int] + vs) =~= #[trigger] (ovals.push(v as int) + vs));
                }
                i = i + 1;
            },
            Err(re) => {
                let kind = match re {
                    ResolveError::UnresolvedSymbol => ErrorKind::UnresolvedSymbol {
                        symbol: p[i].clone(),
                    },
                    ResolveError::NumberParseFailure => ErrorKind::NumberParseFailure {
                        token: p[i].clone(),
                    },
                };
                assert(resolve_tokens(m, pv) == Err::<Seq<int>, SpecErrorKind>(kind@));
                return Err(kind);
            },
        }
    }
    proof {
        assert(pv.skip(n as int) =~= Seq::<Seq<char>>::empty());
        assert(vals_view(vals@) + Seq::<int>::empty() =~= vals_view(vals@));
        assert(resolve_tokens(m, pv) == Ok::<Seq<int>, SpecErrorKind>(vals_view(vals@)));
    }
    let ghost vv = vals_view(vals@);
    assert(vals@.len() == pv.len() && pv.len() > 0);
    let op = vals[0];
    assert(op as int == vv[0]);
    let expected = operand_count_exec(op);
    if vals.len() != expected {
        let kind = ErrorKind::OperandCountMismatch {
            opcode: op,
            expected,
            actual: vals.len(),
        };
        return Err(kind);
    }
    assert(0 <= op < 16) by {
        if (op as int) < 0 || (op as int) >= 16 {
            assert(operand_count(op as int) == 0);
        }
    }
    match encode_fields_exec(op, &vals) {
        Ok(w) => Ok(w),
        Err(e) => Err(e),
    }
}

/// Pass 2: encode every queued instruction, in order; the first failure
/// aborts the run.
pub fn run_pass2(table: &SymbolTable, instrs: &Vec<Instruction>) -> (r: Result<
    Vec<String>,
    AsmError,
>)
    requires
        forall|k: int| 0 <= k < instrs@.len() ==> (#[trigger] instrs@[k])@.toks.len() > 0,
        forall|k: int| 0 <= k < instrs@.len() ==> (#[trigger] instrs@[k]).line < 0x7fff_ffff,
    ensures
        match r {
            Ok(words) => pass2_from(table@, instrs_view(instrs@)) == Ok::<Seq<Seq<char>>, SpecError>(
                words.deep_view(),
            ),
            Err(e) => pass2_from(table@, instrs_view(instrs@)) == Err::<Seq<Seq<char>>, SpecError>(
                e@,
            ),
        },
{
    let ghost m = table@;
    let ghost iv = instrs_view(instrs@);
    let mut out: Vec<String> = Vec::new();
    let n = instrs.len();
    let mut i: usize = 0;
    proof {
        assert(iv.skip(0) =~= iv);
        assert(out.deep_view() =~= Seq::<Seq<char>>::empty());
        assert(forall|ws: Seq<Seq<char>>| Seq::<Seq<char>>::empty() + ws =~= ws);
    }
    while i < n
        invariant
            n == instrs@.len(),
            0 <= i <= n,
            m == table@,
            iv == instrs_view(instrs@),
            iv.len() == n,
            forall|k: int| 0 <= k < instrs@.len() ==> (#[trigger] instrs@[k])@.toks.len() > 0,
            forall|k: int| 0 <= k < instrs@.len() ==> (#[trigger] instrs@[k]).line < 0x7fff_ffff,
            pass2_from(m, iv) == (match pass2_from(m, iv.skip(i as int)) {
                Ok(ws) => Ok::<Seq<Seq<char>>, SpecError>(out.deep_view() + ws),
                Err(e) => Err::<Seq<Seq<char>>, SpecError>(e),
            }),
        decreases n - i,
    {
        proof {
            assert(iv.skip(i as int).len() > 0);
            assert(iv.skip(i as int)[0] == iv[i as int]);
            assert(iv[i as int] == instrs@[i as int]@);
            assert(iv.skip(i as int).drop_first() =~= iv.skip(i as int + 1));
        }
        match encode_instruction_exec(table, &instrs[i].toks) {
            Ok(w) => {
                let word = render_word(w);
                let ghost odv = out.deep_view();
                out.push(word);
                proof {
                    assert(out.deep_view() =~= odv.push(bin16(w as int)));
                    assert(forall|ws: Seq<Seq<char>>|
                        odv + (seq![bin16(w as int)] + ws) =~= #[trigger] (odv.push(
                            bin16(w as int),
                        ) + ws));
                }
                i = i + 1;
            },
            Err(kind) => {
                let e = AsmError {
                    kind,
                    line: instrs[i].line + 1,
                    text: instrs[i].text.clone(),
                };
                assert(e@ == SpecError {
                    kind: e.kind@,
                    line: iv[i as int].line + 1,
                    text: iv[i as int].text,
                });
                assert(pass2_from(m, iv) == Err::<Seq<Seq<char>>, SpecError>(e@));
                return Err(e);
            },
        }
    }
    proof {
        assert(iv.skip(n as int) =~= Seq::<SpecInstruction>::empty());
        assert(out.deep_view() + Seq::<Seq<char>>::empty() =~= out.deep_view());
    }
    Ok(out)
}

/// Assemble a source text into its machine words, each rendered as 16
/// binary digits, most significant bit first; the line index is the memory
/// address. The first failure aborts the run with its kind, 1-based source
/// line number and normalized line text.
pub fn assemble_old(assembly_code: Vec<String>) -> (r: Result<Vec<String>, AsmError>)
    requires
        assembly_code@.len() <= MAX_SOURCE_LINES,
    ensures
        match r {
            Ok(words) => spec_assemble(assembly_code.deep_view()) == Ok::<
                Seq<Seq<char>>,
                SpecError,
            >(words.deep_view()),
            Err(e) => spec_assemble(assembly_code.deep_view()) == Err::<Seq<Seq<char>>, SpecError>(
                e@,
            ),
        },
{
    let cleaned = normalize_source(&assembly_code);
    let mut table = seeded_table();
    let instrs = run_pass1(&cleaned, &mut table);
    run_pass2(&table, &instrs)
}

/// The newer entry point: it only cleans the source up (comments start at
/// `//` here, and nothing is lower-cased) and returns the cleaned lines
/// unchanged; it never fails.
pub fn assemble_new(assembly_code: Vec<String>) -> (r: Result<Vec<String>, AsmError>)
    ensures
        r is Ok,
        match r {
            Ok(lines) => lines.deep_view() == clean_up_lines(assembly_code.deep_view()),
            Err(_) => false,
        },
{
    let machine_code = clean_up(assembly_code);
    Ok(machine_code)
}

} // verus!
