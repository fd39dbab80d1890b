//! Assembling a straight-line program and running its image: the run halts.

use vstd::prelude::*;

use crate::assembler::{assemble, encode, label_table, Lexeme};
use crate::image::magic;
use crate::opcode::{lemma_decode_to_u8, OpCode};
use crate::ports::ReadOutcome;
use crate::vm::{loaded, ran, Machine, VmError, STACK_SIZE};

verus! {

/// The byte that an instruction or literal token stands for.
pub open spec fn token_byte(l: Lexeme) -> u8 {
    match l {
        Lexeme::Op(op) => op.to_u8(),
        Lexeme::Int(n) => n,
        _ => 0,
    }
}

/// The tokens `s` hold instructions and literals only.
pub open spec fn label_free(s: Seq<(Lexeme, usize)>) -> bool {
    forall|i: int| 0 <= i < s.len() ==> (#[trigger] s[i]).0 is Op || s[i].0 is Int
}

/// The bytes of label-free tokens, one for each.
pub open spec fn bytes_of(s: Seq<(Lexeme, usize)>) -> Seq<u8> {
    s.map_values(|t: (Lexeme, usize)| token_byte(t.0))
}

/// Instructions that pop two operands and push one, and cannot fail on them.
pub open spec fn total_binary(op: OpCode) -> bool {
    match op {
        OpCode::Add | OpCode::Sub | OpCode::Mul | OpCode::Eq | OpCode::Neq | OpCode::Lt
        | OpCode::Le | OpCode::Gt | OpCode::Ge => true,
        _ => false,
    }
}

/// Instructions with an immediate operand that pop one and push one, and
/// cannot fail on them.
pub open spec fn total_immediate(op: OpCode) -> bool {
    match op {
        OpCode::AddI | OpCode::SubI | OpCode::MulI => true,
        _ => false,
    }
}

/// `s` is a straight-line program with a balanced stack discipline, run
/// from an operand stack of `depth` entries: stack and arithmetic
/// instructions, none of which can divide, each finding the operands it pops
/// and room for what it pushes, up to a `Fin`.
pub open spec fn balanced(s: Seq<(Lexeme, usize)>, depth: nat) -> bool
    decreases s.len(),
{
    if s.len() == 0 {
        false
    } else {
        match s[0].0 {
            Lexeme::Op(op) => if op == OpCode::Fin {
                true
            } else if op == OpCode::Push {
                s.len() >= 2 && s[1].0 is Int && depth < STACK_SIZE && balanced(s.skip(2), depth + 1)
            } else if op == OpCode::Pop {
                depth >= 1 && balanced(s.skip(1), (depth - 1) as nat)
            } else if op == OpCode::Dup {
                1 <= depth < STACK_SIZE && balanced(s.skip(1), depth + 1)
            } else if op == OpCode::Swap {
                depth >= 2 && balanced(s.skip(1), depth)
            } else if total_binary(op) {
                depth >= 2 && balanced(s.skip(1), (depth - 1) as nat)
            } else if total_immediate(op) {
                s.len() >= 2 && s[1].0 is Int && depth >= 1 && balanced(s.skip(2), depth)
            } else {
                false
            },
            _ => false,
        }
    }
}

/// Label-free tokens encode to their bytes.
proof fn lemma_encode_label_free(s: Seq<(Lexeme, usize)>, table: Seq<(Seq<char>, nat)>)
    requires
        label_free(s),
    ensures
        encode(s, table) == Ok::<Seq<u8>, (usize, Seq<char>)>(bytes_of(s)),
    decreases s.len(),
{
    if s.len() > 0 {
        let p = s.drop_last();
        assert forall|i: int| 0 <= i < p.len() implies (#[trigger] p[i]).0 is Op || p[i].0 is Int by {
            assert(p[i] == s[i]);
        }
        lemma_encode_label_free(p, table);
        assert(s.last() == s[s.len() - 1]);
        assert(bytes_of(s) =~= bytes_of(p).push(token_byte(s.last().0)));
        match s.last().0 {
            Lexeme::Op(op) => {
                assert(bytes_of(p).push(op.to_u8()) == bytes_of(s));
                assert(encode(s, table) == Ok::<Seq<u8>, (usize, Seq<char>)>(
                    bytes_of(p).push(op.to_u8()),
                ));
            },
            Lexeme::Int(n) => {
                assert(bytes_of(p).push(n) == bytes_of(s));
                assert(encode(s, table) == Ok::<Seq<u8>, (usize, Seq<char>)>(
                    bytes_of(p).push(n),
                ));
            },
            _ => assert(s[s.len() - 1].0 is Op || s[s.len() - 1].0 is Int),
        }
    } else {
        assert(bytes_of(s) =~= Seq::<u8>::empty());
    }
}

/// A state of the run of the program `s`: its code is the program's bytes,
/// and it has halted or stands at a balanced rest of the program.
pub open spec fn on_track(s: Seq<(Lexeme, usize)>, m: Machine) -> bool {
    &&& m.code == bytes_of(s)
    &&& m.pc <= s.len()
    &&& m.stack.len() <= STACK_SIZE
    &&& (m.halted || (m.pc < s.len() && balanced(s.skip(m.pc as int), m.stack.len())))
}

/// From a running state of the program, every cycle succeeds, stays on the
/// program, and moves forward.
proof fn lemma_step_on_track(s: Seq<(Lexeme, usize)>, m: Machine, input: ReadOutcome, written: bool)
    requires
        label_free(s),
        s.len() < usize::MAX,
        on_track(s, m),
        m.running(),
    ensures
        m.step(input, written) matches Ok(next) && on_track(s, next) && next.pc > m.pc,
{
    let pc = m.pc as int;
    let t = s.skip(pc);
    let d = m.stack.len();
    assert(t[0] == s[pc]);
    assert(m.code[pc] == token_byte(s[pc].0));
    let op = s[pc].0->Op_0;
    lemma_decode_to_u8(op);
    if op == OpCode::Push || total_immediate(op) {
        assert(t[1] == s[pc + 1]);
        assert(m.code[pc + 1] == token_byte(s[pc + 1].0));
        assert(t.skip(2) =~= s.skip(pc + 2));
        let d2 = if op == OpCode::Push {
            d + 1
        } else {
            d
        };
        assert(balanced(s.skip(pc + 2), d2));
        lemma_balanced_nonempty(s.skip(pc + 2), d2);
        if total_immediate(op) {
            assert(m.stack.drop_last().len() == d - 1);
        }
    } else if op != OpCode::Fin {
        assert(t.skip(1) =~= s.skip(pc + 1));
        let d1: nat = if op == OpCode::Pop || total_binary(op) {
            (d - 1) as nat
        } else if op == OpCode::Dup {
            d + 1
        } else {
            d
        };
        assert(balanced(s.skip(pc + 1), d1));
        lemma_balanced_nonempty(s.skip(pc + 1), d1);
        assert(m.stack.drop_last().len() == d - 1);
        if op == OpCode::Swap || total_binary(op) {
            assert(m.stack.drop_last().drop_last().len() == d - 2);
        }
    }
}

/// A balanced program is never empty: it runs up to a `Fin`.
proof fn lemma_balanced_nonempty(s: Seq<(Lexeme, usize)>, depth: nat)
    requires
        balanced(s, depth),
    ensures
        s.len() > 0,
{
}

/// Every state that the run of the program reaches in `n` cycles is on the
/// program, at or past byte `n`.
proof fn lemma_reach_on_track(s: Seq<(Lexeme, usize)>, first: Machine, last: Machine, n: nat)
    requires
        label_free(s),
        s.len() < usize::MAX,
        on_track(s, first),
        first.reaches(last, n),
    ensures
        on_track(s, last),
        n <= last.pc,
    decreases n,
{
    if n > 0 {
        let mid = choose|mid: Machine| first.reaches(mid, (n - 1) as nat) && #[trigger] mid.steps_to(last);
        lemma_reach_on_track(s, first, mid, (n - 1) as nat);
        let (input, written) = choose|input: ReadOutcome, written: bool|
            #[trigger] mid.step(input, written) == Ok::<Machine, (VmError, Machine)>(last);
        lemma_step_on_track(s, mid, input, written);
    }
}

/// Round trip: a straight-line program with a balanced stack discipline
/// that ends in `Fin` assembles, and any run of its image halts without an
/// error.
pub proof fn lemma_round_trip_halts(s: Seq<(Lexeme, usize)>, r: Result<(), VmError>, last: Machine)
    requires
        label_free(s),
        balanced(s, 0),
        s.len() < usize::MAX,
        s.len() < u64::MAX,
        ran(loaded(assemble(s)->Ok_0), r, last),
    ensures
        assemble(s) == Ok::<Seq<u8>, Seq<char>>(magic() + bytes_of(s)),
        r is Ok,
        last.halted,
{
    lemma_encode_label_free(s, label_table(s));
    let image = magic() + bytes_of(s);
    let first = loaded(image);
    assert(image.skip(4) =~= bytes_of(s));
    assert(s.skip(0) =~= s);
    assert(on_track(s, first));
    match r {
        Ok(()) => {
            let n = choose|n: nat| #[trigger] first.reaches(last, n) && (!last.running() || n == u64::MAX);
            lemma_reach_on_track(s, first, last, n);
        },
        Err(e) => {
            let (n, mid) = choose|n: nat, mid: Machine|
                #[trigger] first.reaches(mid, n) && mid.fails_with(e, last);
            lemma_reach_on_track(s, first, mid, n);
            let (input, written) = choose|input: ReadOutcome, written: bool|
                #[trigger] mid.step(input, written) == Err::<Machine, (VmError, Machine)>((e, last));
            lemma_step_on_track(s, mid, input, written);
        },
    }
}

} // verus!
