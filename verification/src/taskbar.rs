//! The music controls in the Windows taskbar thumbnail: which command a button sends, how the
//! buttons are labelled, the icon masks, and the UTF-16 text Windows expects.
use vstd::prelude::*;

use crate::text::{chars_of, owned};

verus! {

pub const BUTTON_FAVORITE: u32 = 4101;

pub const BUTTON_PREVIOUS: u32 = 4102;

pub const BUTTON_PLAY: u32 = 4103;

pub const BUTTON_NEXT: u32 = 4104;

pub const TASKBAR_ICON_SIZE: usize = 24;

/// Bytes per row of the 1-bit AND mask: rows are padded to 16-bit words.
pub const ICON_MASK_STRIDE: usize = 4;

pub open spec fn button_command(id: u32) -> Option<Seq<char>> {
    if id == BUTTON_FAVORITE {
        Some("favorite"@)
    } else if id == BUTTON_PREVIOUS {
        Some("previous"@)
    } else if id == BUTTON_PLAY {
        Some("playPause"@)
    } else if id == BUTTON_NEXT {
        Some("next"@)
    } else {
        None
    }
}

/// The music-player command of a thumbnail button.
pub fn command_for_button(id: u32) -> (r: Option<String>)
    ensures
        crate::text::opt_str(r) == button_command(id),
{
    if id == BUTTON_FAVORITE {
        Some(owned("favorite"))
    } else if id == BUTTON_PREVIOUS {
        Some(owned("previous"))
    } else if id == BUTTON_PLAY {
        Some(owned("playPause"))
    } else if id == BUTTON_NEXT {
        Some(owned("next"))
    } else {
        None
    }
}

pub fn low_word(value: usize) -> (r: u32)
    ensures
        r == value % 0x10000,
{
    (value % 0x10000) as u32
}

pub fn high_word(value: usize) -> (r: u32)
    ensures
        r == (value / 0x10000) % 0x10000,
{
    ((value / 0x10000) % 0x10000) as u32
}

/// One thumbnail button: its id, the index of its icon, and its tooltip.
pub struct TaskbarButtonSpec {
    pub id: u32,
    pub icon: usize,
    pub tip: &'static str,
}

/// The four buttons: favourite (labelled by whether the track is a favourite), previous, play
/// or pause (by whether it plays), next. Icons: 0 favourite, 1 previous, 2 play, 3 pause, 4 next.
pub fn taskbar_buttons(favorite: bool, playing: bool) -> (r: [TaskbarButtonSpec; 4])
    ensures
        r[0].id == BUTTON_FAVORITE && r[0].icon == 0 && r[0].tip@ == if favorite {
            "Убрать из избранного"@
        } else {
            "Добавить в избранное"@
        },
        r[1].id == BUTTON_PREVIOUS && r[1].icon == 1 && r[1].tip@ == "Предыдущий трек"@,
        r[2].id == BUTTON_PLAY && r[2].icon == (if playing {
            3usize
        } else {
            2usize
        }) && r[2].tip@ == if playing {
            "Пауза"@
        } else {
            "Проиграть"@
        },
        r[3].id == BUTTON_NEXT && r[3].icon == 4 && r[3].tip@ == "Следующий трек"@,
{
    [
        TaskbarButtonSpec {
            id: BUTTON_FAVORITE,
            icon: 0,
            tip: if favorite {
                "Убрать из избранного"
            } else {
                "Добавить в избранное"
            },
        },
        TaskbarButtonSpec { id: BUTTON_PREVIOUS, icon: 1, tip: "Предыдущий трек" },
        TaskbarButtonSpec {
            id: BUTTON_PLAY,
            icon: if playing {
                3
            } else {
                2
            },
            tip: if playing {
                "Пауза"
            } else {
                "Проиграть"
            },
        },
        TaskbarButtonSpec { id: BUTTON_NEXT, icon: 4, tip: "Следующий трек" },
    ]
}

/// The `k`-th of the four bytes of pixel `p`.
pub open spec fn cell(v: Seq<u8>, p: int, k: int) -> u8 {
    v[p * 4 + k]
}

/// Bit `7 - i` of an AND-mask byte: 0 (drawn) where the pixel has coverage, 1 (transparent)
/// elsewhere and beyond the icon's width.
pub open spec fn mask_bit(alpha: Seq<u8>, y: int, x: int) -> int {
    if x < TASKBAR_ICON_SIZE && alpha[y * TASKBAR_ICON_SIZE + x] > 0 {
        0
    } else {
        1
    }
}

/// The first `i` bits of byte `b` of row `y` of the AND mask, most significant first.
pub open spec fn mask_byte_bits(alpha: Seq<u8>, y: int, b: int, i: nat) -> int
    decreases i,
{
    if i == 0 {
        0
    } else {
        mask_byte_bits(alpha, y, b, (i - 1) as nat) * 2 + mask_bit(alpha, y, b * 8 + i - 1)
    }
}

pub open spec fn mask_byte(alpha: Seq<u8>, y: int, b: int) -> int {
    mask_byte_bits(alpha, y, b, 8)
}

proof fn lemma_mask_byte_bits_bound(alpha: Seq<u8>, y: int, b: int, i: nat)
    ensures
        0 <= mask_byte_bits(alpha, y, b, i) < pow2(i),
    decreases i,
{
    if i > 0 {
        lemma_mask_byte_bits_bound(alpha, y, b, (i - 1) as nat);
    }
}

proof fn lemma_uniform_mask_bits(alpha: Seq<u8>, y: int, b: int, i: nat, bit: int)
    requires
        bit == 0 || bit == 1,
        forall|j: int| 0 <= j < i ==> #[trigger] mask_bit(alpha, y, b * 8 + j) == bit,
    ensures
        mask_byte_bits(alpha, y, b, i) == bit * (pow2(i) - 1),
    decreases i,
{
    if i > 0 {
        lemma_uniform_mask_bits(alpha, y, b, (i - 1) as nat, bit);
        assert(mask_bit(alpha, y, b * 8 + (i - 1)) == bit);
        assert(bit * (pow2((i - 1) as nat) - 1) * 2 + bit == bit * (pow2(i) - 1)) by (nonlinear_arith)
            requires
                pow2(i) == 2 * pow2((i - 1) as nat),
        ;
    }
}

/// In the AND mask, a pixel with any coverage is drawn and every other pixel is transparent:
/// a fully transparent icon masks every byte out (255), and a fully covered one draws the
/// three bytes of each row that hold its 24 pixels and masks out the padding byte.
pub proof fn law_mask_follows_coverage(alpha: Seq<u8>, y: int, b: int)
    requires
        alpha.len() == 576,
        0 <= y < 24,
        0 <= b < 4,
    ensures
        (forall|i: int| 0 <= i < alpha.len() ==> alpha[i] == 0) ==> mask_byte(alpha, y, b) == 255int,
        (forall|i: int| 0 <= i < alpha.len() ==> alpha[i] > 0) ==> mask_byte(alpha, y, b) == if b < 3 {
            0int
        } else {
            255int
        },
{
    assert(pow2(8) == 256) by {
        reveal_with_fuel(pow2, 9);
    }
    assert forall|x: int| 0 <= x < 24 implies 0 <= #[trigger] (y * 24 + x) < 576 by {
        assert(0 <= y * 24 + x < 576) by (nonlinear_arith)
            requires
                0 <= y < 24,
                0 <= x < 24,
        ;
    }
    if forall|i: int| 0 <= i < alpha.len() ==> alpha[i] == 0 {
        assert forall|j: int| 0 <= j < 8 implies #[trigger] mask_bit(alpha, y, b * 8 + j) == 1 by {
            let x = b * 8 + j;
            if x < 24 {
                assert(0 <= y * 24 + x < 576);
            }
        }
        lemma_uniform_mask_bits(alpha, y, b, 8, 1);
    }
    if forall|i: int| 0 <= i < alpha.len() ==> alpha[i] > 0 {
        let bit: int = if b < 3 {
            0
        } else {
            1
        };
        assert forall|j: int| 0 <= j < 8 implies #[trigger] mask_bit(alpha, y, b * 8 + j) == bit by {
            let x = b * 8 + j;
            if x < 24 {
                assert(0 <= y * 24 + x < 576);
            }
        }
        lemma_uniform_mask_bits(alpha, y, b, 8, bit);
    }
}

pub open spec fn pow2(n: nat) -> int
    decreases n,
{
    if n == 0 {
        1
    } else {
        2 * pow2((n - 1) as nat)
    }
}

/// The AND mask (1 bit per pixel, rows of four bytes) and the XOR colour layer (four bytes of
/// the pixel's coverage per pixel) of a 24×24 icon, from its coverage per pixel, row by row.
pub fn icon_bits(alpha: &Vec<u8>) -> (r: (Vec<u8>, Vec<u8>))
    requires
        alpha@.len() == TASKBAR_ICON_SIZE * TASKBAR_ICON_SIZE,
    ensures
        r.0@.len() == ICON_MASK_STRIDE * TASKBAR_ICON_SIZE,
        forall|y: int, b: int|
            0 <= y < TASKBAR_ICON_SIZE && 0 <= b < ICON_MASK_STRIDE ==> r.0@[y * 4 + b] as int
                == mask_byte(alpha@, y, b),
        r.1@.len() == TASKBAR_ICON_SIZE * TASKBAR_ICON_SIZE * 4,
        forall|p: int, k: int| 0 <= p < 576 && 0 <= k < 4 ==> #[trigger] cell(r.1@, p, k) == alpha@[p],
{
    let mut and_bits: Vec<u8> = Vec::new();
    let mut y: usize = 0;
    while y < TASKBAR_ICON_SIZE
        invariant
            alpha@.len() == 576,
            y <= 24,
            and_bits@.len() == y * 4,
            forall|yy: int, b: int| 0 <= yy < y && 0 <= b < 4 ==> and_bits@[yy * 4 + b] as int == mask_byte(alpha@, yy, b),
        decreases 24 - y,
    {
        let mut b: usize = 0;
        while b < ICON_MASK_STRIDE
            invariant
                alpha@.len() == 576,
                y < 24,
                b <= 4,
                and_bits@.len() == y * 4 + b,
                forall|yy: int, bb: int| 0 <= yy < y && 0 <= bb < 4 ==> and_bits@[yy * 4 + bb] as int == mask_byte(alpha@, yy, bb),
                forall|bb: int| 0 <= bb < b ==> and_bits@[y * 4 + bb] as int == mask_byte(alpha@, y as int, bb),
            decreases 4 - b,
        {
            let mut byte: u32 = 0;
            let mut i: usize = 0;
            while i < 8
                invariant
                    alpha@.len() == 576,
                    y < 24,
                    b < 4,
                    i <= 8,
                    byte as int == mask_byte_bits(alpha@, y as int, b as int, i as nat),
                decreases 8 - i,
            {
                proof {
                    lemma_mask_byte_bits_bound(alpha@, y as int, b as int, i as nat);
                    reveal_with_fuel(pow2, 8);
                }
                let x = b * 8 + i;
                let bit: u32 = if x < TASKBAR_ICON_SIZE && alpha[y * TASKBAR_ICON_SIZE + x] > 0 {
                    0
                } else {
                    1
                };
                byte = byte * 2 + bit;
                i = i + 1;
            }
            proof {
                lemma_mask_byte_bits_bound(alpha@, y as int, b as int, 8);
                reveal_with_fuel(pow2, 9);
                assert(pow2(8) == 256);
                assert(byte < 256);
            }
            and_bits.push(byte as u8);
            proof {
                assert forall|yy: int, bb: int| 0 <= yy < y && 0 <= bb < 4 implies and_bits@[yy * 4 + bb] as int
                    == mask_byte(alpha@, yy, bb) by {
                    assert(yy * 4 + bb < y * 4) by (nonlinear_arith)
                        requires
                            yy < y,
                            bb < 4,
                    ;
                }
            }
            b = b + 1;
        }
        proof {
            assert forall|yy: int, bb: int| 0 <= yy < y + 1 && 0 <= bb < 4 implies and_bits@[yy * 4 + bb] as int
                == mask_byte(alpha@, yy, bb) by {
                if yy < y {
                } else {
                    assert(yy == y);
                }
            }
        }
        y = y + 1;
    }
    let mut xor_bits: Vec<u8> = Vec::new();
    let mut p: usize = 0;
    while p < 576
        invariant
            alpha@.len() == 576,
            p <= 576,
            xor_bits@.len() == p * 4,
            forall|q: int, k: int| 0 <= q < p && 0 <= k < 4 ==> #[trigger] cell(xor_bits@, q, k) == alpha@[q],
        decreases 576 - p,
    {
        let a = alpha[p];
        let ghost before = xor_bits@;
        xor_bits.push(a);
        xor_bits.push(a);
        xor_bits.push(a);
        xor_bits.push(a);
        proof {
            let base = p as int * 4;
            assert(xor_bits@[base] == a && xor_bits@[base + 1] == a && xor_bits@[base + 2] == a
                && xor_bits@[base + 3] == a);
            assert forall|q: int, k: int| 0 <= q < p + 1 && 0 <= k < 4 implies #[trigger] cell(xor_bits@, q, k)
                == alpha@[q] by {
                if q < p {
                    assert(q * 4 + k < p * 4) by (nonlinear_arith)
                        requires
                            q < p,
                            k < 4,
                    ;
                    assert(cell(before, q, k) == alpha@[q]);
                    assert(xor_bits@[q * 4 + k] == before[q * 4 + k]);
                } else {
                    assert(q * 4 + k == base + k);
                }
            }
        }
        p = p + 1;
    }
    (and_bits, xor_bits)
}

/// The UTF-16 code units of a character.
pub open spec fn utf16_units(c: char) -> Seq<u16> {
    let v = c as u32;
    if v < 0x10000 {
        seq![v as u16]
    } else {
        seq![(0xd800 + (v - 0x10000) / 1024) as u16, (0xdc00 + (v - 0x10000) % 1024) as u16]
    }
}

/// The UTF-16 encoding of a string.
pub open spec fn utf16(s: Seq<char>) -> Seq<u16>
    decreases s.len(),
{
    if s.len() == 0 {
        Seq::empty()
    } else {
        utf16(s.drop_last()) + utf16_units(s.last())
    }
}

/// The UTF-16 text of `value` with a terminating zero, as Windows expects.
pub fn wide_null(value: &str) -> (r: Vec<u16>)
    ensures
        r@ == utf16(value@).push(0),
{
    let chars = chars_of(value);
    let mut out: Vec<u16> = Vec::new();
    let mut i: usize = 0;
    while i < chars.len()
        invariant
            chars@ == value@,
            i <= chars@.len(),
            out@ == utf16(chars@.subrange(0, i as int)),
        decreases chars@.len() - i,
    {
        let c = chars[i];
        let v = c as u32;
        proof {
            assert(chars@.subrange(0, i + 1).drop_last() =~= chars@.subrange(0, i as int));
        }
        if v < 0x10000 {
            out.push(v as u16);
            proof {
                assert(out@ =~= utf16(chars@.subrange(0, i + 1)));
            }
        } else {
            let u = v - 0x10000;
            out.push((0xd800 + u / 1024) as u16);
            out.push((0xdc00 + u % 1024) as u16);
            proof {
                assert(out@ =~= utf16(chars@.subrange(0, i + 1)));
            }
        }
        i = i + 1;
    }
    proof {
        assert(chars@.subrange(0, chars@.len() as int) =~= chars@);
    }
    out.push(0);
    out
}

/// The tooltip of a thumbnail button: its UTF-16 text, zero-terminated, cut to the 260 units
/// of the button's tip field.
pub fn tip_units(tip: &str) -> (r: Vec<u16>)
    ensures
        r@ == if utf16(tip@).push(0).len() <= 260 {
            utf16(tip@).push(0)
        } else {
            utf16(tip@).push(0).take(260)
        },
{
    let mut wide = wide_null(tip);
    if wide.len() > 260 {
        wide.truncate(260);
    }
    wide
}

} // verus!
