//! Byte-level helpers: big-endian word access, header-based endianness
//! detection, in-place re-ending of a buffer, and rounding helpers.

use vstd::prelude::*;

verus! {

use crate::INSTRUCTION_SIZE;
use crate::WORD_SIZE;

/// Byte order of a ROM container, as betrayed by its first word.
#[derive(Debug, Clone, Copy, PartialEq, Eq, Structural)]
pub enum Endian {
    /// Big endian (native layout).
    Good,
    /// Little endian.
    Bad,
    /// Byte-swapped within each halfword.
    Ugly,
}

/// The 32-bit big-endian word starting at byte offset `i` of `b`.
pub open spec fn word_at(b: Seq<u8>, i: int) -> u32 {
    (b[i] * 0x100_0000 + b[i + 1] * 0x1_0000 + b[i + 2] * 0x100 + b[i + 3]) as u32
}

proof fn lemma_be_word_shift(b0: u8, b1: u8, b2: u8, b3: u8)
    ensures
        ((b0 as u32) << 24) | ((b1 as u32) << 16) | ((b2 as u32) << 8) | (b3 as u32)
            == (b0 * 0x100_0000 + b1 * 0x1_0000 + b2 * 0x100 + b3) as u32,
{
    assert(((b0 as u32) << 24) | ((b1 as u32) << 16) | ((b2 as u32) << 8) | (b3 as u32)
        == ((b0 as u32) * 0x100_0000 + (b1 as u32) * 0x1_0000 + (b2 as u32) * 0x100
            + (b3 as u32)) as u32) by (bit_vector);
}

/// Reads the big-endian 32-bit word at the start of `bytes`.
pub fn read_be_word(bytes: &[u8]) -> (r: u32)
    requires
        bytes@.len() >= 4,
    ensures
        r == word_at(bytes@, 0),
{
    let r = ((bytes[0] as u32) << 24) | ((bytes[1] as u32) << 16) | ((bytes[2] as u32) << 8)
        | (bytes[3] as u32);
    proof {
        lemma_be_word_shift(bytes[0], bytes[1], bytes[2], bytes[3]);
    }
    r
}

/// Reads the big-endian 32-bit word at byte offset `i` of `bytes`.
pub fn read_word_at(bytes: &[u8], i: usize) -> (r: u32)
    requires
        i + 4 <= bytes@.len(),
    ensures
        r == word_at(bytes@, i as int),
{
    let r = ((bytes[i] as u32) << 24) | ((bytes[i + 1] as u32) << 16) | (
    (bytes[i + 2] as u32) << 8) | (bytes[i + 3] as u32);
    proof {
        lemma_be_word_shift(bytes[i as int], bytes[i + 1], bytes[i + 2], bytes[i + 3]);
    }
    r
}

/// What `get_endian` reports for a buffer: the byte order whose known header
/// pattern opens the buffer, if any.
pub open spec fn spec_get_endian(b: Seq<u8>) -> Option<Endian> {
    if b.len() < 4 {
        None
    } else if b[0] == 0x80 && b[1] == 0x37 && b[2] == 0x12 && b[3] == 0x40 {
        Some(Endian::Good)
    } else if b[0] == 0x40 && b[1] == 0x12 && b[2] == 0x37 && b[3] == 0x80 {
        Some(Endian::Bad)
    } else if b[0] == 0x37 && b[1] == 0x80 && b[2] == 0x40 && b[3] == 0x12 {
        Some(Endian::Ugly)
    } else {
        None
    }
}

/// Recognises the byte order of a ROM from its header word; `None` when the
/// buffer is too short or opens with an unknown pattern.
pub fn get_endian(input: &[u8]) -> (r: Option<Endian>)
    ensures
        r == spec_get_endian(input@),
{
    if input.len() < WORD_SIZE {
        return None;
    }
    let b0 = input[0];
    let b1 = input[1];
    let b2 = input[2];
    let b3 = input[3];
    if b0 == 0x80 && b1 == 0x37 && b2 == 0x12 && b3 == 0x40 {
        Some(Endian::Good)
    } else if b0 == 0x40 && b1 == 0x12 && b2 == 0x37 && b3 == 0x80 {
        Some(Endian::Bad)
    } else if b0 == 0x37 && b1 == 0x80 && b2 == 0x40 && b3 == 0x12 {
        Some(Endian::Ugly)
    } else {
        None
    }
}

/// The buffer `b` re-ended into big-endian order: byte `i` of the result
/// comes from the mirrored position of `i` within its 4-byte group (`Bad`),
/// within its 2-byte group (`Ugly`), or stays put (`Good`).
pub open spec fn spec_reend(b: Seq<u8>, endian: Endian) -> Seq<u8> {
    match endian {
        Endian::Good => b,
        Endian::Bad => Seq::new(b.len(), |i: int| b[4 * (i / 4) + 3 - (i % 4)]),
        Endian::Ugly => Seq::new(b.len(), |i: int| b[2 * (i / 2) + 1 - (i % 2)]),
    }
}

proof fn lemma_group_mirror(g: int, i: int, j: int)
    requires
        g == 2 || g == 4,
        i % g == 0,
        0 <= i <= j < i + g,
    ensures
        g * (j / g) + (g - 1) - (j % g) == i + (g - 1) - (j - i),
{
    assert(j / g == i / g && j % g == j - i) by (nonlinear_arith)
        requires
            g > 0,
            i % g == 0,
            0 <= i <= j < i + g,
    ;
    assert(g * (i / g) == i) by (nonlinear_arith)
        requires
            g > 0,
            i >= 0,
            i % g == 0,
    ;
}

proof fn lemma_group_step(g: int, i: int, n: int)
    requires
        g > 0,
        i % g == 0,
        n % g == 0,
        0 <= i < n,
    ensures
        i + g <= n,
{
    let qi: int = i / g;
    let qn: int = n / g;
    assert(i == qi * g && n == qn * g) by (nonlinear_arith)
        requires
            g > 0,
            i % g == 0,
            n % g == 0,
            0 <= i,
            0 <= n,
            qi == i / g,
            qn == n / g,
    ;
    assert(qi < qn ==> (qi + 1) * g <= qn * g) by (nonlinear_arith)
        requires
            g > 0,
    ;
    assert(qi * g < qn * g ==> qi < qn) by (nonlinear_arith)
        requires
            g > 0,
    ;
    assert((qi + 1) * g == qi * g + g) by (nonlinear_arith);
}

/// Re-ends a buffer in place so that it reads as big-endian.
pub fn reend_array(v: &mut Vec<u8>, endian: &Endian)
    requires
        old(v)@.len() as int % (INSTRUCTION_SIZE as int) == 0,
    ensures
        final(v)@ == spec_reend(old(v)@, *endian),
{
    let n = v.len();
    match endian {
        Endian::Good => {
            proof {
                assert(v@ =~= spec_reend(v@, Endian::Good));
            }
        },
        Endian::Bad => {
            let mut i: usize = 0;
            while i < n
                invariant
                    n == v@.len(),
                    v@.len() % 4 == 0,
                    i % 4 == 0,
                    i <= n,
                    forall|j: int|
                        0 <= j < i ==> v@[j] == #[trigger] old(v)@[4 * (j / 4) + 3 - (j % 4)],
                    forall|j: int| i <= j < n ==> v@[j] == #[trigger] old(v)@[j],
                decreases n - i,
            {
                proof {
                    lemma_group_step(4, i as int, n as int);
                }
                let a = v[i];
                let b = v[i + 1];
                let c = v[i + 2];
                let d = v[i + 3];
                v.set(i, d);
                v.set(i + 1, c);
                v.set(i + 2, b);
                v.set(i + 3, a);
                proof {
                    assert forall|j: int| 0 <= j < i + 4 implies v@[j] == #[trigger] old(
                        v,
                    )@[4 * (j / 4) + 3 - (j % 4)] by {
                        if i <= j < i + 4 {
                            lemma_group_mirror(4, i as int, j);
                        }
                    }
                }
                i = i + 4;
            }
            proof {
                assert(v@ =~= spec_reend(old(v)@, Endian::Bad));
            }
        },
        Endian::Ugly => {
            let mut i: usize = 0;
            while i < n
                invariant
                    n == v@.len(),
                    v@.len() % 4 == 0,
                    i % 2 == 0,
                    i <= n,
                    forall|j: int|
                        0 <= j < i ==> v@[j] == #[trigger] old(v)@[2 * (j / 2) + 1 - (j % 2)],
                    forall|j: int| i <= j < n ==> v@[j] == #[trigger] old(v)@[j],
                decreases n - i,
            {
                proof {
                    assert(n as int % 2 == 0) by (nonlinear_arith)
                        requires
                            n as int % 4 == 0,
                    ;
                    lemma_group_step(2, i as int, n as int);
                }
                let a = v[i];
                let b = v[i + 1];
                v.set(i, b);
                v.set(i + 1, a);
                proof {
                    assert forall|j: int| 0 <= j < i + 2 implies v@[j] == #[trigger] old(
                        v,
                    )@[2 * (j / 2) + 1 - (j % 2)] by {
                        if i <= j < i + 2 {
                            lemma_group_mirror(2, i as int, j);
                        }
                    }
                }
                i = i + 2;
            }
            proof {
                assert(v@ =~= spec_reend(old(v)@, Endian::Ugly));
            }
        },
    }
}

/// Rounds `x` up to the next multiple of `n`.
pub fn round_up(x: usize, n: usize) -> (r: usize)
    requires
        n > 0,
        x + n - 1 <= usize::MAX,
    ensures
        r == ((x + n - 1) / (n as int)) * n,
        r % n == 0,
        x <= r < x + n,
{
    proof {
        lemma_round_up_bounds(x as int, n as int);
    }
    let r = ((x + (n - 1)) / n) * n;
    r
}

proof fn lemma_round_up_bounds(x: int, n: int)
    requires
        x >= 0,
        n > 0,
    ensures
        (((x + n - 1) / n) * n) % n == 0,
        x <= ((x + n - 1) / n) * n < x + n,
{
    let q: int = (x + n - 1) / n;
    assert((q * n) % n == 0) by (nonlinear_arith)
        requires
            n > 0,
    ;
    assert(x + n - 1 == q * n + ((x + n - 1) % n) && 0 <= (x + n - 1) % n < n) by (nonlinear_arith)
        requires
            n > 0,
            x >= 0,
            q == (x + n - 1) / n,
    ;
}

/// Rounds `x` down to the previous multiple of `n`.
pub fn round_down(x: usize, n: usize) -> (r: usize)
    requires
        n > 0,
    ensures
        r == ((x as int) / (n as int)) * n,
        r % n == 0,
        r <= x < r + n,
{
    proof {
        lemma_round_down_bounds(x as int, n as int);
    }
    let r = (x / n) * n;
    r
}

proof fn lemma_round_down_bounds(x: int, n: int)
    requires
        x >= 0,
        n > 0,
    ensures
        ((x / n) * n) % n == 0,
        (x / n) * n <= x < (x / n) * n + n,
{
    let q: int = x / n;
    assert((q * n) % n == 0) by (nonlinear_arith)
        requires
            n > 0,
    ;
    assert(x == q * n + (x % n) && 0 <= x % n < n) by (nonlinear_arith)
        requires
            n > 0,
            x >= 0,
            q == x / n,
    ;
}

} // verus!
