//! Proved laws of the instruction builder and of the abstract machine: the
//! builder's output is exactly the recognized commands; a step of the
//! machine preserves well-formedness; and on a bracket-balanced program no
//! bracket error can ever surface.

use vstd::prelude::*;
use crate::errors::BFErrorKind;
use crate::semantics::{
    balanced, builder_emitted, char_instr, cnt, command_count, grown, io_step, is_command, parse,
    runs_to, scan, spec_step, wf, Instruct, MachineState,
};

verus! {

/// Appending one character to the source text appends the instruction it
/// denotes, if any, to the parsed sequence.
pub proof fn lemma_parse_snoc(s: Seq<char>, c: char)
    ensures
        parse(s.push(c)) == (if is_command(c) {
            parse(s).push(char_instr(c)->0)
        } else {
            parse(s)
        }),
    decreases s.len(),
{
    let t = s.push(c);
    if s.len() == 0 {
        assert(t[0] == c);
        assert(t.drop_first() =~= Seq::<char>::empty());
        if is_command(c) {
            assert(seq![char_instr(c)->0] + parse(Seq::<char>::empty()) =~= parse(s).push(
                char_instr(c)->0,
            ));
        }
    } else {
        assert(t[0] == s[0]);
        assert(t.drop_first() =~= s.drop_first().push(c));
        lemma_parse_snoc(s.drop_first(), c);
        if is_command(c) {
            match char_instr(s[0]) {
                Some(i) => {
                    assert(seq![i] + parse(s.drop_first()).push(char_instr(c)->0) =~= (seq![i]
                        + parse(s.drop_first())).push(char_instr(c)->0));
                },
                None => {},
            }
        }
    }
}

/// The Instruction Sequence Builder's output length equals the count of
/// recognized command characters in the source text, and only instructions
/// that the builder can emit ever appear in it: unrecognized characters are
/// silently discarded and never raise errors.
pub proof fn lemma_parse_length(s: Seq<char>)
    ensures
        parse(s).len() == command_count(s),
        forall|j: int| 0 <= j < parse(s).len() ==> builder_emitted(#[trigger] parse(s)[j]),
    decreases s.len(),
{
    if s.len() > 0 {
        lemma_parse_length(s.drop_first());
    }
}

/// A bracket count over a range splits at any intermediate position.
pub proof fn lemma_cnt_split(instrs: Seq<Instruct>, a: int, b: int, c: int)
    requires
        a <= b <= c,
    ensures
        cnt(instrs, a, c) == cnt(instrs, a, b) + cnt(instrs, b, c),
    decreases c - b,
{
    if b < c {
        lemma_cnt_split(instrs, a, b, c - 1);
    }
}

/// What a successful matching scan guarantees: it stops at a close-loop
/// instruction inside the sequence, and the range it scanned over closes
/// exactly the starting depth plus the loop being matched.
pub proof fn lemma_scan_close(instrs: Seq<Instruct>, i: int, d: int)
    requires
        scan(instrs, i, d) is Some,
    ensures
        ({
            let k = scan(instrs, i, d)->0;
            &&& i <= k < instrs.len()
            &&& instrs[k] is CloseLoop
            &&& cnt(instrs, i, k) == -d
        }),
    decreases instrs.len() - i,
{
    let k = scan(instrs, i, d)->0;
    if i < 0 || i >= instrs.len() {
        // contradicts the requires: the scan found nothing
    } else if instrs[i] is CloseLoop && d == 0 {
        // k == i and an empty range counts zero
    } else {
        let d2: int = if instrs[i] is CloseLoop {
            d - 1
        } else if instrs[i] is OpenLoop {
            d + 1
        } else {
            d
        };
        lemma_scan_close(instrs, i + 1, d2);
        lemma_cnt_split(instrs, i, i + 1, k);
        assert(cnt(instrs, i, i + 1) == cnt(instrs, i, i) + (if instrs[i] is OpenLoop {
            1int
        } else if instrs[i] is CloseLoop {
            -1int
        } else {
            0int
        }));
    }
}

/// In a sequence whose suffix from `i` closes at least `d + 1` more loops
/// than it opens, a matching scan started at `i` with depth `d` finds a
/// close.
pub proof fn lemma_scan_finds(instrs: Seq<Instruct>, i: int, d: int)
    requires
        0 <= i <= instrs.len(),
        d >= 0,
        cnt(instrs, i, instrs.len() as int) <= -d - 1,
    ensures
        scan(instrs, i, d) is Some,
    decreases instrs.len() - i,
{
    if i == instrs.len() {
        // an empty suffix counts zero, contradicting the requires
    } else {
        lemma_cnt_split(instrs, i, i + 1, instrs.len() as int);
        assert(cnt(instrs, i, i + 1) == cnt(instrs, i, i) + (if instrs[i] is OpenLoop {
            1int
        } else if instrs[i] is CloseLoop {
            -1int
        } else {
            0int
        }));
        if instrs[i] is CloseLoop {
            if d > 0 {
                lemma_scan_finds(instrs, i + 1, d - 1);
            }
        } else if instrs[i] is OpenLoop {
            lemma_scan_finds(instrs, i + 1, d + 1);
        } else {
            lemma_scan_finds(instrs, i + 1, d);
        }
    }
}

/// One abstract machine step, successful or not, keeps the state well formed
/// and never touches the instruction sequence.
pub proof fn lemma_wf_step(s: MachineState, c: char)
    requires
        wf(s),
    ensures
        wf(spec_step(s, c).post),
        spec_step(s, c).post.instrs == s.instrs,
{
    let o = spec_step(s, c);
    let len = s.instrs.len() as int;
    if 0 <= s.ip < len {
        let cells = grown(s.cells, s.cp);
        match s.instrs[s.ip] {
            Instruct::OpenLoop => {
                if cells[s.cp] != 0 {
                    let st = s.stack.push(s.ip);
                    assert forall|k: int| 0 <= k < st.len() implies {
                        &&& 0 <= #[trigger] st[k] < len
                        &&& s.instrs[st[k]] is OpenLoop
                        &&& cnt(s.instrs, 0, st[k]) == k
                    } by {
                        if k < s.stack.len() {
                            assert(st[k] == s.stack[k]);
                        } else {
                            assert(st[k] == s.ip);
                        }
                    }
                } else {
                    match scan(s.instrs, s.ip + 1, 0) {
                        Some(k) => {
                            lemma_scan_close(s.instrs, s.ip + 1, 0);
                            lemma_cnt_split(s.instrs, 0, s.ip + 1, k);
                            assert(cnt(s.instrs, 0, k + 1) == cnt(s.instrs, 0, k) - 1);
                        },
                        None => {},
                    }
                }
            },
            Instruct::CloseLoop => {
                if s.stack.len() > 0 {
                    let last = s.stack.len() - 1;
                    assert(s.stack.last() == s.stack[last]);
                    assert(cnt(s.instrs, 0, s.stack[last]) == last);
                    assert forall|k: int| 0 <= k < s.stack.drop_last().len() implies #[trigger] s.stack.drop_last()[k]
                        == s.stack[k] by {}
                }
            },
            _ => {},
        }
    }
}

/// On a well-formed state of a bracket-balanced program, a step never fails
/// with `MissingOpen` or `MissingClose`: bracket errors arise only from
/// unbalanced programs.
pub proof fn lemma_no_bracket_fail(s: MachineState, c: char)
    requires
        wf(s),
        balanced(s.instrs),
        0 <= s.ip < s.instrs.len(),
    ensures
        spec_step(s, c).err != Some(BFErrorKind::MissingOpen),
        spec_step(s, c).err != Some(BFErrorKind::MissingClose),
{
    let len = s.instrs.len() as int;
    if s.instrs[s.ip] is CloseLoop {
        assert(cnt(s.instrs, 0, s.ip + 1) >= 0);
        assert(cnt(s.instrs, 0, s.ip + 1) == cnt(s.instrs, 0, s.ip) - 1);
    } else if s.instrs[s.ip] is OpenLoop {
        let cells = grown(s.cells, s.cp);
        if cells[s.cp] == 0 {
            lemma_cnt_split(s.instrs, 0, s.ip + 1, len);
            assert(cnt(s.instrs, 0, s.ip + 1) == cnt(s.instrs, 0, s.ip) + 1);
            lemma_scan_finds(s.instrs, s.ip + 1, 0);
        }
    }
}

/// A chain of successful engine steps, extended by one more successful step,
/// is again such a chain.
pub proof fn lemma_runs_to_snoc(
    pre: MachineState,
    ins0: Seq<char>,
    out0: Seq<char>,
    mid: MachineState,
    insm: Seq<char>,
    outm: Seq<char>,
    post: MachineState,
    ins1: Seq<char>,
    out1: Seq<char>,
    n: nat,
)
    requires
        runs_to(pre, ins0, out0, mid, insm, outm, n),
        io_step(mid, insm, outm, post, ins1, out1, None),
    ensures
        runs_to(pre, ins0, out0, post, ins1, out1, n + 1),
{
    assert(runs_to(pre, ins0, out0, mid, insm, outm, ((n + 1) as nat - 1) as nat));
}

} // verus!
