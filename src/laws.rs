use vstd::prelude::*;

use crate::display::{collides, drawn, lemma_pixel_xor, lemma_sprite_bit, sprite_bit};
use crate::instruction::Instruction;
use crate::machine::{lemma_step_wf, step, Fault, MachineState, FLAG, LAST_ADDRESS, MEMORY_SIZE, STACK_SIZE};

verus! {

/// `8xy4` on a = Vx and b = Vy leaves (a + b) mod 256 in Vx and sets VF to 1
/// exactly when a + b exceeds 255, to 0 otherwise (Vx other than VF).
pub proof fn add_sets_carry(m: MachineState, x: u8, y: u8, rnd: u8)
    requires
        m.wf(),
        x < 15,
        y < 16,
    ensures
        ({
            let (a, b) = (m.v[x as int], m.v[y as int]);
            let n = step(m, Instruction::AddVxVy(x, y), rnd).0;
            &&& n.v[x as int] == (a + b) % 256
            &&& n.v[FLAG as int] == 1 <==> a + b > 255
            &&& n.v[FLAG as int] == 0 <==> a + b <= 255
        }),
{
}

/// `8xy5` on a = Vx and b = Vy leaves (a - b) mod 256 in Vx and sets VF to 1
/// exactly when a >= b, to 0 otherwise (Vx other than VF).
pub proof fn sub_sets_no_borrow(m: MachineState, x: u8, y: u8, rnd: u8)
    requires
        m.wf(),
        x < 15,
        y < 16,
    ensures
        ({
            let (a, b) = (m.v[x as int], m.v[y as int]);
            let n = step(m, Instruction::SubVxVy(x, y), rnd).0;
            &&& n.v[x as int] == (a - b) % 256
            &&& n.v[FLAG as int] == 1 <==> a >= b
            &&& n.v[FLAG as int] == 0 <==> a < b
        }),
{
}

/// `8xy7` is `8xy5` with the operands swapped: with a = Vx and b = Vy it
/// leaves (b - a) mod 256 in Vx and sets VF to 1 exactly when b >= a, to 0
/// otherwise (Vx other than VF).
pub proof fn subn_sets_no_borrow(m: MachineState, x: u8, y: u8, rnd: u8)
    requires
        m.wf(),
        x < 15,
        y < 16,
    ensures
        ({
            let (a, b) = (m.v[x as int], m.v[y as int]);
            let n = step(m, Instruction::SubnVxVy(x, y), rnd).0;
            &&& n.v[x as int] == (b - a) % 256
            &&& n.v[FLAG as int] == 1 <==> b >= a
            &&& n.v[FLAG as int] == 0 <==> b < a
        }),
{
}

/// The flag of `8xy6` is the low bit, and that of `8xyE` the high bit, of Vx
/// before the shift, whatever register x is, VF included.
pub proof fn shift_flags_are_shifted_out_bits(m: MachineState, x: u8, rnd: u8)
    requires
        m.wf(),
        x < 16,
    ensures
        step(m, Instruction::ShrVx(x), rnd).0.v[FLAG as int] == m.v[x as int] % 2,
        step(m, Instruction::ShlVx(x), rnd).0.v[FLAG as int] == m.v[x as int] / 128,
{
}

/// Drawing the same sprite twice at the same place gives back the display
/// as it was before the first draw (x and y other than VF, which the first
/// draw overwrites).
pub proof fn draw_twice_restores(m: MachineState, x: u8, y: u8, n: u8, rnd: u8)
    requires
        m.wf(),
        x < 15,
        y < 15,
        n < 16,
        m.i + n <= MEMORY_SIZE,
    ensures
        ({
            let once = step(m, Instruction::Drw(x, y, n), rnd);
            let twice = step(once.0, Instruction::Drw(x, y, n), rnd);
            &&& once.1 == Ok::<(), Fault>(())
            &&& twice.1 == Ok::<(), Fault>(())
            &&& twice.0.frame == m.frame
        }),
{
    let sprite = m.memory.subrange(m.i as int, m.i + n);
    let (vx, vy) = (m.v[x as int], m.v[y as int]);
    let once = drawn(m.frame, sprite, vx, vy);
    let twice = drawn(once, sprite, vx, vy);
    assert forall|r: int| 0 <= r < 32 implies #[trigger] twice[r] =~= m.frame[r] by {
        assert forall|c: int| 0 <= c < 64 implies twice[r][c] == m.frame[r][c] by {
            lemma_sprite_bit(sprite, vx, vy, r, c);
            lemma_pixel_xor(m.frame[r][c], sprite_bit(sprite, vx, vy, r, c));
        }
    }
    assert(twice =~= m.frame);
}

/// A draw sets VF to 1 exactly when it turns at least one lit pixel off, and
/// to 0 otherwise, wherever the sprite lands, wrapped or not.
pub proof fn draw_flags_erased_pixels(m: MachineState, x: u8, y: u8, n: u8, rnd: u8)
    requires
        m.wf(),
        x < 16,
        y < 16,
        n < 16,
        m.i + n <= MEMORY_SIZE,
    ensures
        ({
            let after = step(m, Instruction::Drw(x, y, n), rnd).0;
            let erased = exists|r: int, c: int|
                0 <= r < 32 && 0 <= c < 64 && m.frame[r][c] == 1 && #[trigger] after.frame[r][c] == 0;
            &&& after.v[FLAG as int] == 1 <==> erased
            &&& after.v[FLAG as int] == 0 <==> !erased
        }),
{
    let sprite = m.memory.subrange(m.i as int, m.i + n);
    let (vx, vy) = (m.v[x as int], m.v[y as int]);
    let after = step(m, Instruction::Drw(x, y, n), rnd).0;
    assert(after.frame == drawn(m.frame, sprite, vx, vy));
    if collides(m.frame, sprite, vx, vy) {
        let (r, c) = choose|r: int, c: int|
            0 <= r < 32 && 0 <= c < 64 && m.frame[r][c] == 1 && #[trigger] sprite_bit(sprite, vx, vy, r, c) == 1;
        lemma_pixel_xor(m.frame[r][c], sprite_bit(sprite, vx, vy, r, c));
        assert(after.frame[r][c] == 0);
    }
    if exists|r: int, c: int| 0 <= r < 32 && 0 <= c < 64 && m.frame[r][c] == 1 && #[trigger] after.frame[r][c] == 0 {
        let (r, c) = choose|r: int, c: int|
            0 <= r < 32 && 0 <= c < 64 && m.frame[r][c] == 1 && #[trigger] after.frame[r][c] == 0;
        lemma_sprite_bit(sprite, vx, vy, r, c);
        lemma_pixel_xor(m.frame[r][c], sprite_bit(sprite, vx, vy, r, c));
        assert(sprite_bit(sprite, vx, vy, r, c) == 1);
    }
}

/// Storing V0..=Vx with `Fx55` and loading them back with `Fx65` from the
/// same address gives back every register, Vx included.
pub proof fn store_then_load_restores_registers(m: MachineState, x: u8, rnd: u8)
    requires
        m.wf(),
        x < 16,
        m.i + x <= LAST_ADDRESS,
    ensures
        ({
            let stored = step(m, Instruction::LdIVx(x), rnd);
            let loaded = step(stored.0, Instruction::LdVxI(x), rnd);
            &&& stored.1 == Ok::<(), Fault>(())
            &&& loaded.1 == Ok::<(), Fault>(())
            &&& loaded.0.v == m.v
        }),
{
    let stored = step(m, Instruction::LdIVx(x), rnd).0;
    let loaded = step(stored, Instruction::LdVxI(x), rnd).0;
    assert(loaded.v =~= m.v);
}

/// The machine after running `prog` one instruction after another.
pub open spec fn run(m: MachineState, prog: Seq<Instruction>, rnd: u8) -> MachineState
    decreases prog.len(),
{
    if prog.len() == 0 {
        m
    } else {
        run(step(m, prog[0], rnd).0, prog.drop_first(), rnd)
    }
}

/// A `CALL` to each of `targets`, in order.
pub open spec fn calls(targets: Seq<u16>) -> Seq<Instruction> {
    Seq::new(targets.len(), |k: int| Instruction::Call(targets[k]))
}

/// `j` returns.
pub open spec fn rets(j: nat) -> Seq<Instruction> {
    Seq::new(j, |k: int| Instruction::Ret)
}

/// The address that the `k`-th of the calls to `targets` pushes, starting
/// from a machine at `pc`: the program counter when that call runs.
pub open spec fn pushed(pc: u16, targets: Seq<u16>, k: int) -> u16 {
    if k == 0 { pc } else { targets[k - 1] }
}

proof fn lemma_calls(m: MachineState, targets: Seq<u16>, rnd: u8)
    requires
        m.wf(),
        m.sp + targets.len() <= STACK_SIZE,
        forall|k: int| 0 <= k < targets.len() ==> #[trigger] targets[k] <= LAST_ADDRESS,
    ensures
        ({
            let s = run(m, calls(targets), rnd);
            &&& s.wf()
            &&& s.sp == m.sp + targets.len()
            &&& forall|k: int| 0 <= k < m.sp ==> #[trigger] s.stack[k] == m.stack[k]
            &&& forall|k: int| 0 <= k < targets.len() ==> #[trigger] s.stack[m.sp + k] == pushed(m.pc, targets, k)
            &&& s.pc == pushed(m.pc, targets, targets.len() as int)
        }),
    decreases targets.len(),
{
    if targets.len() > 0 {
        let m1 = step(m, Instruction::Call(targets[0]), rnd).0;
        let rest = targets.drop_first();
        lemma_step_wf(m, Instruction::Call(targets[0]), rnd);
        assert(calls(targets).drop_first() =~= calls(rest));
        assert(calls(targets)[0] == Instruction::Call(targets[0]));
        assert forall|k: int| 0 <= k < rest.len() implies #[trigger] rest[k] <= LAST_ADDRESS by {
            assert(rest[k] == targets[k + 1]);
        }
        lemma_calls(m1, rest, rnd);
        let s = run(m, calls(targets), rnd);
        assert(s == run(m1, calls(rest), rnd));
        assert forall|k: int| 0 <= k < targets.len() implies #[trigger] s.stack[m.sp + k] == pushed(m.pc, targets, k) by {
            if k > 0 {
                assert(s.stack[m1.sp + (k - 1)] == pushed(m1.pc, rest, k - 1));
            }
        }
    }
}

proof fn lemma_rets(s: MachineState, j: nat, rnd: u8)
    requires
        s.wf(),
        1 <= j <= s.sp,
    ensures
        run(s, rets(j), rnd).sp == s.sp - j,
        run(s, rets(j), rnd).pc == s.stack[s.sp - j],
        run(s, rets(j), rnd).stack == s.stack,
    decreases j,
{
    let s1 = step(s, Instruction::Ret, rnd).0;
    assert(rets(j)[0] == Instruction::Ret);
    assert(rets(j).drop_first() =~= rets((j - 1) as nat));
    assert(run(s, rets(j), rnd) == run(s1, rets((j - 1) as nat), rnd));
    if j > 1 {
        lemma_step_wf(s, Instruction::Ret, rnd);
        lemma_rets(s1, (j - 1) as nat, rnd);
    } else {
        assert(rets(0).len() == 0);
        assert(run(s1, rets(0), rnd) == s1);
    }
}

/// After `CALL`s to each of `targets`, each further `RET` goes back to what
/// the matching `CALL` pushed, the newest first: after `j` returns the
/// program counter holds what call number `targets.len() - j` (counting from
/// 0) pushed, and the stack is `j` entries shorter than after the calls.
pub proof fn returns_unwind_calls(m: MachineState, targets: Seq<u16>, j: nat, rnd: u8)
    requires
        m.wf(),
        m.sp + targets.len() <= STACK_SIZE,
        forall|k: int| 0 <= k < targets.len() ==> #[trigger] targets[k] <= LAST_ADDRESS,
        1 <= j <= targets.len(),
    ensures
        ({
            let s = run(run(m, calls(targets), rnd), rets(j), rnd);
            &&& s.pc == pushed(m.pc, targets, targets.len() - j)
            &&& s.sp == m.sp + targets.len() - j
        }),
{
    lemma_calls(m, targets, rnd);
    let s = run(m, calls(targets), rnd);
    lemma_rets(s, j, rnd);
    assert(s.stack[s.sp - j] == s.stack[m.sp + (targets.len() - j)]);
}

} // verus!
