//! Step widths of the jump-flood passes that grow an outline from a mask.
use vstd::prelude::*;

verus! {

/// The first value of `p, 2p, 4p, ...` that is at least `n` (for `p > 0`).
pub open spec fn pow2_reaching(p: nat, n: nat) -> nat
    decreases (if p >= n { 0 } else { n - p }) when p > 0
{
    if p >= n {
        p
    } else {
        pow2_reaching(2 * p, n)
    }
}

/// The smallest power of two that is at least `n`, as `u32::next_power_of_two` returns it.
pub open spec fn next_power_of_two(n: nat) -> nat {
    pow2_reaching(1, n)
}

/// `step, step / 2, step / 4, ...` down to 1, or nothing when `step` is 0.
pub open spec fn halvings(step: nat) -> Seq<nat>
    decreases step,
{
    if step >= 1 {
        seq![step] + halvings(step / 2)
    } else {
        Seq::empty()
    }
}

/// The jump-flood step widths for a `width` x `height` mask: half the next
/// power of two of the larger side, halved down to 1.
pub open spec fn spec_jump_flood_steps(width: u32, height: u32) -> Seq<nat> {
    let side: nat = if width >= height { width as nat } else { height as nat };
    halvings(next_power_of_two(side) / 2)
}

fn next_power_of_two_u32(n: u32) -> (p: u32)
    requires
        n <= 0x8000_0000,
    ensures
        p == next_power_of_two(n as nat),
{
    let mut p: u32 = 1;
    while p < n
        invariant
            p > 0,
            n <= 0x8000_0000,
            pow2_reaching(p as nat, n as nat) == next_power_of_two(n as nat),
        decreases (if p >= n { 0 } else { n - p }),
    {
        p = p * 2;
    }
    p
}

/// The step widths of the jump-flood passes for a mask of the given size.
/// The larger side must not exceed 2^31, the largest power of two a `u32` holds.
pub fn jump_flood_steps(width: u32, height: u32) -> (steps: Vec<u32>)
    requires
        width <= 0x8000_0000,
        height <= 0x8000_0000,
    ensures
        steps@.map_values(|s: u32| s as nat) == spec_jump_flood_steps(width, height),
{
    let side = if width >= height { width } else { height };
    let mut step = next_power_of_two_u32(side) / 2;
    let ghost first = step as nat;
    let mut steps: Vec<u32> = Vec::new();
    while step >= 1
        invariant
            steps@.map_values(|s: u32| s as nat) + halvings(step as nat) == halvings(first),
        decreases step,
    {
        let ghost before = steps@.map_values(|s: u32| s as nat);
        steps.push(step);
        assert(steps@.map_values(|s: u32| s as nat) =~= before.push(step as nat));
        assert(before.push(step as nat) + halvings((step / 2) as nat) =~= before + halvings(step as nat));
        step = step / 2;
    }
    assert(steps@.map_values(|s: u32| s as nat) =~= steps@.map_values(|s: u32| s as nat) + halvings(step as nat));
    steps
}

/// Each step is half the one before it (rounded down) and the last one is 1.
pub proof fn lemma_halvings_shape(step: nat)
    ensures
        forall|i: int|
            0 <= i < halvings(step).len() - 1 ==> #[trigger] halvings(step)[i + 1] == halvings(
                step,
            )[i] / 2,
        halvings(step).len() > 0 ==> halvings(step).last() == 1,
        step >= 1 ==> halvings(step)[0] == step,
    decreases step,
{
    if step >= 1 {
        lemma_halvings_shape(step / 2);
        let rest = halvings(step / 2);
        assert(halvings(step) == seq![step] + rest);
        assert forall|i: int| 0 <= i < halvings(step).len() - 1 implies #[trigger] halvings(step)[i
            + 1] == halvings(step)[i] / 2 by {
            assert(halvings(step)[i + 1] == rest[i]);
            if i > 0 {
                let j = i - 1;
                assert(halvings(step / 2)[j + 1] == halvings(step / 2)[j] / 2);
                assert(halvings(step)[i] == rest[i - 1]);
            } else {
                assert(halvings(step)[0] == step);
                assert(rest[0] == step / 2);
            }
        }
    }
}

/// The images a jump-flood pass reads from or writes to: the object mask and
/// the two ping-pong images A and B.
#[derive(Debug, Clone, Copy, PartialEq, Eq, Structural)]
pub enum JfaImage {
    Mask,
    A,
    B,
}

/// What pass `i` reads and writes: the first pass reads the mask and writes A;
/// after that odd passes read A and write B, even passes read B and write A.
pub open spec fn spec_jump_flood_pass_io(i: nat) -> (JfaImage, JfaImage) {
    if i == 0 {
        (JfaImage::Mask, JfaImage::A)
    } else if i % 2 == 1 {
        (JfaImage::A, JfaImage::B)
    } else {
        (JfaImage::B, JfaImage::A)
    }
}

/// The image that jump-flood pass `i` reads, and the one it writes.
pub fn jump_flood_pass_io(i: usize) -> (io: (JfaImage, JfaImage))
    ensures
        io == spec_jump_flood_pass_io(i as nat),
{
    if i == 0 {
        (JfaImage::Mask, JfaImage::A)
    } else if i % 2 == 1 {
        (JfaImage::A, JfaImage::B)
    } else {
        (JfaImage::B, JfaImage::A)
    }
}

/// Whether the outline composite reads image A (rather than B) after `step_count` passes.
pub fn final_image_is_a(step_count: usize) -> (is_a: bool)
    ensures
        is_a == (step_count % 2 == 1),
{
    step_count % 2 == 1
}

/// Every pass reads what the pass before it wrote and never the image it
/// writes, and after `n` passes the composite reads the last pass's output.
pub proof fn lemma_jump_flood_chain(i: nat, n: nat)
    requires
        n >= 1,
    ensures
        spec_jump_flood_pass_io(i).1 == spec_jump_flood_pass_io(i + 1).0,
        spec_jump_flood_pass_io(i).0 != spec_jump_flood_pass_io(i).1,
        (spec_jump_flood_pass_io((n - 1) as nat).1 == JfaImage::A) == (n % 2 == 1),
{
}

proof fn lemma_pow2_reaching(a: nat, n: nat)
    ensures
        ({
            let r = pow2_reaching(vstd::arithmetic::power2::pow2(a), n);
            exists|b: nat|
                b >= a && #[trigger] vstd::arithmetic::power2::pow2(b) == r && r >= n && (b > a
                    ==> vstd::arithmetic::power2::pow2((b - 1) as nat) < n)
        }),
    decreases (if vstd::arithmetic::power2::pow2(a) >= n { 0 } else { n - vstd::arithmetic::power2::pow2(a) }),
{
    vstd::arithmetic::power2::lemma_pow2_pos(a);
    let p = vstd::arithmetic::power2::pow2(a);
    if p >= n {
        assert(vstd::arithmetic::power2::pow2(a) == pow2_reaching(p, n));
    } else {
        vstd::arithmetic::power2::lemma_pow2_unfold(a + 1);
        assert(vstd::arithmetic::power2::pow2(a + 1) == 2 * p);
        lemma_pow2_reaching(a + 1, n);
        let r = pow2_reaching(2 * p, n);
        let b = choose|b: nat|
            b >= a + 1 && #[trigger] vstd::arithmetic::power2::pow2(b) == r && r >= n && (b > a + 1
                ==> vstd::arithmetic::power2::pow2((b - 1) as nat) < n);
        assert(vstd::arithmetic::power2::pow2((b - 1) as nat) < n) by {
            if b == a + 1 {
                assert((b - 1) as nat == a);
            }
        }
    }
}

/// The jump-flood steps do not depend on which side is the width: they are
/// the same for a mask turned on its side. When there is a step, the first
/// one `s` is half of the smallest power of two at or above the larger side:
/// `2 * s` is a power of two, at least that side, and `s` is below it. Each
/// following step is half the one before, down to 1.
pub proof fn lemma_jump_flood_first_step(width: u32, height: u32)
    ensures
        spec_jump_flood_steps(width, height) == spec_jump_flood_steps(height, width),
        ({
            let steps = spec_jump_flood_steps(width, height);
            let side: nat = if width >= height { width as nat } else { height as nat };
            steps.len() > 0 ==> {
                &&& exists|k: nat| #[trigger] vstd::arithmetic::power2::pow2(k) == 2 * steps[0]
                &&& 2 * steps[0] >= side
                &&& steps[0] < side
                &&& steps.last() == 1
                &&& forall|i: int| 0 <= i < steps.len() - 1 ==> #[trigger] steps[i + 1] == steps[i] / 2
            }
        }),
{
    let side: nat = if width >= height { width as nat } else { height as nat };
    vstd::arithmetic::power2::lemma2_to64();
    lemma_pow2_reaching(0, side);
    let r = next_power_of_two(side);
    let b = choose|b: nat|
        b >= 0 && #[trigger] vstd::arithmetic::power2::pow2(b) == r && r >= side && (b > 0
            ==> vstd::arithmetic::power2::pow2((b - 1) as nat) < side);
    let steps = spec_jump_flood_steps(width, height);
    lemma_halvings_shape(r / 2);
    if steps.len() > 0 {
        assert(r / 2 >= 1);
        assert(b > 0) by {
            if b == 0 {
                assert(r == 1);
            }
        }
        vstd::arithmetic::power2::lemma_pow2_unfold(b);
        assert(steps[0] == r / 2);
        assert(vstd::arithmetic::power2::pow2(b) == 2 * steps[0]);
    }
}

} // verus!
