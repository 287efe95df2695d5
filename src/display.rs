use vstd::prelude::*;

verus! {

/// Width of the display in pixels.
pub const FRAME_WIDTH: usize = 64;

/// Height of the display in pixels.
pub const FRAME_HEIGHT: usize = 32;

/// The display: `frame[row][column]`, each pixel 0 (off) or 1 (on).
pub type Frame = [[u8; 64]; 32];

/// The display as rows of pixels.
pub open spec fn frame_view(frame: Frame) -> Seq<Seq<u8>> {
    Seq::new(32, |r: int| frame[r]@)
}

/// Every pixel is 0 or 1.
pub open spec fn frame_wf(frame: Seq<Seq<u8>>) -> bool {
    &&& frame.len() == 32
    &&& forall|r: int| 0 <= r < 32 ==> #[trigger] frame[r].len() == 64
    &&& forall|r: int, c: int| 0 <= r < 32 && 0 <= c < 64 ==> #[trigger] frame[r][c] <= 1
}

/// An all-dark display.
pub open spec fn blank_frame() -> Seq<Seq<u8>> {
    Seq::new(32, |r: int| Seq::new(64, |c: int| 0u8))
}

/// Bit `c` of a sprite row, counting from the most significant bit.
pub open spec fn row_bit(row: u8, c: int) -> u8 {
    (row >> ((7 - c) as u8)) & 1u8
}

/// Which sprite row lands on display row `r` when the sprite's top is at `vy`
/// (rows wrap around the bottom edge).
pub open spec fn sprite_row(vy: u8, r: int) -> int {
    (r - vy) % 32
}

/// Which sprite column lands on display column `c` when the sprite's left
/// edge is at `vx` (columns wrap around the right edge).
pub open spec fn sprite_col(vx: u8, c: int) -> int {
    (c - vx) % 64
}

/// The sprite bit that a sprite drawn at (`vx`, `vy`) puts on pixel
/// (`r`, `c`): 0 where the sprite does not reach.
pub open spec fn sprite_bit(sprite: Seq<u8>, vx: u8, vy: u8, r: int, c: int) -> u8 {
    let dr = sprite_row(vy, r);
    let dc = sprite_col(vx, c);
    if dr < sprite.len() && dc < 8 {
        row_bit(sprite[dr], dc)
    } else {
        0
    }
}

/// The display after XOR-ing the sprite onto it at (`vx`, `vy`).
pub open spec fn drawn(frame: Seq<Seq<u8>>, sprite: Seq<u8>, vx: u8, vy: u8) -> Seq<Seq<u8>> {
    Seq::new(32, |r: int| Seq::new(64, |c: int| frame[r][c] ^ sprite_bit(sprite, vx, vy, r, c)))
}

/// Drawing the sprite at (`vx`, `vy`) turns off at least one lit pixel.
pub open spec fn collides(frame: Seq<Seq<u8>>, sprite: Seq<u8>, vx: u8, vy: u8) -> bool {
    exists|r: int, c: int|
        0 <= r < 32 && 0 <= c < 64 && frame[r][c] == 1 && #[trigger] sprite_bit(sprite, vx, vy, r, c) == 1
}

pub proof fn lemma_pixel_xor(p: u8, b: u8)
    requires
        p <= 1,
        b <= 1,
    ensures
        p ^ b <= 1,
        (p ^ b) ^ b == p,
        (p ^ b == 0 && p == 1) <==> (p == 1 && b == 1),
        b == 0 ==> p ^ b == p,
{
    assert(p <= 1 && b <= 1 ==> p ^ b <= 1 && (p ^ b) ^ b == p && ((p ^ b == 0 && p == 1) <==> (p == 1 && b == 1)) && (b == 0 ==> p ^ b == p)) by (bit_vector);
}

pub proof fn lemma_row_bit(row: u8, c: int)
    requires
        0 <= c < 8,
    ensures
        row_bit(row, c) <= 1,
{
    let s = (7 - c) as u8;
    assert((row >> s) & 1u8 <= 1) by (bit_vector);
}

pub proof fn lemma_sprite_bit(sprite: Seq<u8>, vx: u8, vy: u8, r: int, c: int)
    ensures
        sprite_bit(sprite, vx, vy, r, c) <= 1,
{
    let dc = sprite_col(vx, c);
    if sprite_row(vy, r) < sprite.len() && dc < 8 {
        lemma_row_bit(sprite[sprite_row(vy, r)], dc);
    }
}

/// Drawing keeps every pixel 0 or 1.
pub proof fn lemma_drawn_wf(frame: Seq<Seq<u8>>, sprite: Seq<u8>, vx: u8, vy: u8)
    requires
        frame_wf(frame),
    ensures
        frame_wf(drawn(frame, sprite, vx, vy)),
{
    assert forall|r: int, c: int| 0 <= r < 32 && 0 <= c < 64 implies #[trigger] drawn(frame, sprite, vx, vy)[r][c] <= 1 by {
        lemma_sprite_bit(sprite, vx, vy, r, c);
        lemma_pixel_xor(frame[r][c], sprite_bit(sprite, vx, vy, r, c));
    }
}

/// A pixel of the sprite's first `b` rows, or of the first `k` bits of row `b`.
spec fn covered(vx: u8, vy: u8, r: int, c: int, b: int, k: int) -> bool {
    let dr = sprite_row(vy, r);
    let dc = sprite_col(vx, c);
    dc < 8 && (dr < b || (dr == b && dc < k))
}

/// Pixel (`r`, `c`) is lit and the sprite bit that lands on it is set.
spec fn hit(old_frame: Seq<Seq<u8>>, sprite: Seq<u8>, vx: u8, vy: u8, r: int, c: int) -> bool {
    old_frame[r][c] == 1 && row_bit(sprite[sprite_row(vy, r)], sprite_col(vx, c)) == 1
}

/// Some pixel among the first `b` rows and `k` bits is a hit.
spec fn collided_within(old_frame: Seq<Seq<u8>>, sprite: Seq<u8>, vx: u8, vy: u8, b: int, k: int) -> bool {
    exists|r: int, c: int|
        0 <= r < 32 && 0 <= c < 64 && #[trigger] covered(vx, vy, r, c, b, k) && hit(old_frame, sprite, vx, vy, r, c)
}

proof fn lemma_collided_step(old_frame: Seq<Seq<u8>>, sprite: Seq<u8>, vx: u8, vy: u8, b: int, k: int, y: int, x: int)
    requires
        0 <= y < 32,
        0 <= x < 64,
        covered(vx, vy, y, x, b, k + 1),
        forall|r: int, c: int| 0 <= r < 32 && 0 <= c < 64 ==>
            covered(vx, vy, r, c, b, k + 1) == (covered(vx, vy, r, c, b, k) || (r == y && c == x)),
    ensures
        collided_within(old_frame, sprite, vx, vy, b, k + 1) == (collided_within(old_frame, sprite, vx, vy, b, k)
            || hit(old_frame, sprite, vx, vy, y, x)),
{
    if collided_within(old_frame, sprite, vx, vy, b, k + 1) {
        let (r, c) = choose|r: int, c: int|
            0 <= r < 32 && 0 <= c < 64 && #[trigger] covered(vx, vy, r, c, b, k + 1) && hit(old_frame, sprite, vx, vy, r, c);
        if !(r == y && c == x) {
            assert(covered(vx, vy, r, c, b, k));
        } else {
            assert(hit(old_frame, sprite, vx, vy, y, x));
        }
    }
    if collided_within(old_frame, sprite, vx, vy, b, k) {
        let (r, c) = choose|r: int, c: int|
            0 <= r < 32 && 0 <= c < 64 && #[trigger] covered(vx, vy, r, c, b, k) && hit(old_frame, sprite, vx, vy, r, c);
        assert(covered(vx, vy, r, c, b, k + 1));
    }
    if hit(old_frame, sprite, vx, vy, y, x) {
        assert(covered(vx, vy, y, x, b, k + 1));
    }
}

proof fn lemma_collided_next_row(old_frame: Seq<Seq<u8>>, sprite: Seq<u8>, vx: u8, vy: u8, b: int)
    ensures
        collided_within(old_frame, sprite, vx, vy, b, 8) == collided_within(old_frame, sprite, vx, vy, b + 1, 0),
{
    if collided_within(old_frame, sprite, vx, vy, b, 8) {
        let (r, c) = choose|r: int, c: int|
            0 <= r < 32 && 0 <= c < 64 && #[trigger] covered(vx, vy, r, c, b, 8) && hit(old_frame, sprite, vx, vy, r, c);
        assert(covered(vx, vy, r, c, b + 1, 0));
    }
    if collided_within(old_frame, sprite, vx, vy, b + 1, 0) {
        let (r, c) = choose|r: int, c: int|
            0 <= r < 32 && 0 <= c < 64 && #[trigger] covered(vx, vy, r, c, b + 1, 0) && hit(old_frame, sprite, vx, vy, r, c);
        assert(covered(vx, vy, r, c, b, 8));
    }
}

proof fn lemma_collided_all(old_frame: Seq<Seq<u8>>, sprite: Seq<u8>, vx: u8, vy: u8)
    ensures
        collided_within(old_frame, sprite, vx, vy, sprite.len() as int, 0) == collides(old_frame, sprite, vx, vy),
{
    let n = sprite.len() as int;
    if collided_within(old_frame, sprite, vx, vy, n, 0) {
        let (r, c) = choose|r: int, c: int|
            0 <= r < 32 && 0 <= c < 64 && #[trigger] covered(vx, vy, r, c, n, 0) && hit(old_frame, sprite, vx, vy, r, c);
        assert(sprite_bit(sprite, vx, vy, r, c) == 1);
    }
    if collides(old_frame, sprite, vx, vy) {
        let (r, c) = choose|r: int, c: int|
            0 <= r < 32 && 0 <= c < 64 && old_frame[r][c] == 1 && #[trigger] sprite_bit(sprite, vx, vy, r, c) == 1;
        assert(covered(vx, vy, r, c, n, 0));
    }
}

/// XORs the `n`-byte sprite stored at `memory[start..start + n]` onto the
/// display with its top-left corner at (`vx`, `vy`), wrapping at the edges.
/// Returns whether a lit pixel was turned off.
pub fn draw_sprite(frame: &mut Frame, memory: &[u8; 4096], start: usize, n: usize, vx: u8, vy: u8) -> (collision: bool)
    requires
        frame_wf(frame_view(*old(frame))),
        n < 16,
        start + n <= 4096,
    ensures
        frame_view(*final(frame)) == drawn(frame_view(*old(frame)), memory@.subrange(start as int, start + n), vx, vy),
        collision == collides(frame_view(*old(frame)), memory@.subrange(start as int, start + n), vx, vy),
        frame_wf(frame_view(*final(frame))),
{
    let ghost old_frame = frame_view(*frame);
    let ghost sprite = memory@.subrange(start as int, start + n);
    let mut collision = false;
    let mut b: usize = 0;
    while b < n
        invariant
            b <= n < 16,
            start + n <= 4096,
            sprite == memory@.subrange(start as int, start + n),
            frame_wf(old_frame),
            forall|r: int, c: int| 0 <= r < 32 && 0 <= c < 64 ==> #[trigger] frame[r][c] == (
                if covered(vx, vy, r, c, b as int, 0) {
                    old_frame[r][c] ^ row_bit(sprite[sprite_row(vy, r)], sprite_col(vx, c))
                } else {
                    old_frame[r][c]
                }),
            collision == collided_within(old_frame, sprite, vx, vy, b as int, 0),
        decreases n - b,
    {
        let row_byte = memory[start + b];
        let y = ((vy as usize + b) % 32) as usize;
        let mut k: usize = 0;
        while k < 8
            invariant
                b < n < 16,
                start + n <= 4096,
                k <= 8,
                y == (vy + b) % 32,
                row_byte == sprite[b as int],
                sprite == memory@.subrange(start as int, start + n),
                frame_wf(old_frame),
                forall|r: int, c: int| 0 <= r < 32 && 0 <= c < 64 ==> #[trigger] frame[r][c] == (
                    if covered(vx, vy, r, c, b as int, k as int) {
                        old_frame[r][c] ^ row_bit(sprite[sprite_row(vy, r)], sprite_col(vx, c))
                    } else {
                        old_frame[r][c]
                    }),
                collision == collided_within(old_frame, sprite, vx, vy, b as int, k as int),
            decreases 8 - k,
        {
            let x = ((vx as usize + k) % 64) as usize;
            let bit = (row_byte >> ((7 - k) as u8)) & 1;
            proof {
                assert(sprite_row(vy, y as int) == b);
                assert(sprite_col(vx, x as int) == k);
                lemma_row_bit(row_byte, k as int);
                assert(!covered(vx, vy, y as int, x as int, b as int, k as int));
                assert(frame[y as int][x as int] == old_frame[y as int][x as int]);
                lemma_pixel_xor(old_frame[y as int][x as int], bit);
                assert forall|r: int, c: int| 0 <= r < 32 && 0 <= c < 64 implies
                    covered(vx, vy, r, c, b as int, k as int + 1) == (covered(vx, vy, r, c, b as int, k as int) || (r == y && c == x)) by {
                }
                lemma_collided_step(old_frame, sprite, vx, vy, b as int, k as int, y as int, x as int);
            }
            let p = frame[y][x];
            if p == 1 && bit == 1 {
                collision = true;
            }
            frame[y][x] = p ^ bit;
            k = k + 1;
        }
        proof {
            lemma_collided_next_row(old_frame, sprite, vx, vy, b as int);
        }
        b = b + 1;
    }
    proof {
        assert forall|r: int, c: int| 0 <= r < 32 && 0 <= c < 64 implies
            covered(vx, vy, r, c, n as int, 0) == (sprite_row(vy, r) < sprite.len() && sprite_col(vx, c) < 8) by {
        }
        lemma_collided_all(old_frame, sprite, vx, vy);
        assert forall|r: int, c: int| 0 <= r < 32 && 0 <= c < 64 implies
            #[trigger] frame[r][c] == old_frame[r][c] ^ sprite_bit(sprite, vx, vy, r, c) && frame[r][c] <= 1 by {
            if covered(vx, vy, r, c, n as int, 0) {
                lemma_row_bit(sprite[sprite_row(vy, r)], sprite_col(vx, c));
            }
            lemma_pixel_xor(old_frame[r][c], sprite_bit(sprite, vx, vy, r, c));
        }
        assert forall|r: int| 0 <= r < 32 implies #[trigger] frame_view(*frame)[r] =~= drawn(old_frame, sprite, vx, vy)[r] by {
        }
        assert(frame_view(*frame) =~= drawn(old_frame, sprite, vx, vy));
    }
    collision
}

} // verus!
