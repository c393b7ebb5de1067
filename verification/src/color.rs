//! The rainbow color function.
//!
//! A hue cycle is modelled as `HUE_STEPS` (1536) discrete angle units: six
//! segments of 256 steps each. Every channel follows the same trapezoid
//! wave over the cycle — high for a third of it, low for a third, with
//! linear ramps between — and the three channels are shifted against each
//! other by exactly a third of the cycle (120 degrees), which sweeps the
//! full saturated hue wheel as the angle grows.
//!
//! `ColorControl` carries the tunable parameters in fixed-point thousandths
//! and the internal row/column cursor that the stream drivers advance.

use vstd::prelude::*;

verus! {

/// One full hue cycle, in angle units (six segments of 256 steps).
pub const HUE_STEPS: u16 = 1536;

/// Fixed-point scale of the control parameters: all of `seed`, `spread`
/// and `frequency` are given in thousandths.
pub const PARAM_SCALE: u64 = 1000;

/// Largest accepted value for `spread` and `frequency` (one million,
/// in thousandths). Larger requests are clamped down to it.
pub const PARAM_MAX: u64 = 1_000_000_000;

/// One RGB color, each channel in 0..=255.
#[derive(Clone, Copy, Debug, PartialEq, Eq, Structural)]
pub struct Rgb {
    pub r: u8,
    pub g: u8,
    pub b: u8,
}

/// The trapezoid wave a single channel follows over one hue cycle:
/// high at 255 for a third of the cycle (wrapping around its start),
/// low at 0 for the opposite third, with linear ramps between.
pub open spec fn wave(a: int) -> int
    recommends
        0 <= a < 1536,
{
    if a < 256 {
        255
    } else if a < 512 {
        511 - a
    } else if a < 1024 {
        0
    } else if a < 1280 {
        a - 1024
    } else {
        255
    }
}

/// The color of a reduced hue angle: the three channels follow `wave`
/// with phase shifts of a third of the cycle between them.
pub open spec fn rgb_of_angle(a: int) -> Rgb
    recommends
        0 <= a < 1536,
{
    Rgb {
        r: wave(a) as u8,
        g: wave((a + 1024) % 1536) as u8,
        b: wave((a + 512) % 1536) as u8,
    }
}

/// Exec counterpart of `wave`.
pub fn wave_value(a: u16) -> (v: u8)
    requires
        a < 1536,
    ensures
        v as int == wave(a as int),
{
    if a < 256 {
        255
    } else if a < 512 {
        (511 - a) as u8
    } else if a < 1024 {
        0
    } else if a < 1280 {
        (a - 1024) as u8
    } else {
        255
    }
}

/// Parameters of the rainbow effect, plus the internal position cursor.
///
/// `seed`, `spread` and `frequency` are fixed-point thousandths. The
/// phase of a position is `frequency * (col / spread + row) + seed`, in
/// thousandths of a full hue cycle: `spread == 3000` divides the column
/// by three, so larger spreads change color more slowly along a line,
/// and `frequency == 100` advances the hue a tenth of a cycle per row,
/// so larger frequencies cycle faster. `seed` is a phase offset, of
/// which only the value modulo `PARAM_SCALE` matters — one full cycle.
/// The `row`/`col` cursor belongs to the stream drivers; callers should
/// build a fresh control per render call.
pub struct ColorControl {
    pub seed: u64,
    pub spread: u64,
    pub frequency: u64,
    pub background_mode: bool,
    pub dialup_mode: bool,
    pub print_color: bool,
    pub row: u64,
    pub col: u64,
}

/// Clamp a requested `spread` or `frequency` into 1..=PARAM_MAX.
/// Zero would divide by zero further down, so it becomes the smallest
/// positive value instead of failing.
pub open spec fn clamp_param(x: u64) -> u64 {
    if x == 0 {
        1
    } else if x > PARAM_MAX {
        PARAM_MAX
    } else {
        x
    }
}

impl ColorControl {
    /// Well-formedness: what `new` establishes and the drivers preserve.
    pub open spec fn wf(self) -> bool {
        &&& 1 <= self.spread <= PARAM_MAX
        &&& 1 <= self.frequency <= PARAM_MAX
        &&& self.seed < PARAM_SCALE
    }

    /// The raw phase of a cursor position, in thousandths of a hue cycle:
    /// `frequency * (col / spread + row) + seed`, every term scaled by
    /// `PARAM_SCALE`.
    pub open spec fn position_phase(self, row: int, col: int) -> int
        recommends
            self.wf(),
            0 <= row,
            0 <= col,
    {
        let pos = col * 1_000_000 / (self.spread as int) + row * 1000;
        (self.frequency as int) * pos / 1000 + self.seed as int
    }

    /// The reduced hue angle of a cursor position, in 0..1536.
    pub open spec fn angle_at(self, row: int, col: int) -> int
        recommends
            self.wf(),
            0 <= row,
            0 <= col,
    {
        (self.position_phase(row, col) * 1536 / 1000) % 1536
    }

    /// The color the rainbow assigns to a cursor position.
    pub open spec fn rgb_at_spec(self, row: int, col: int) -> Rgb
        recommends
            self.wf(),
            0 <= row,
            0 <= col,
    {
        rgb_of_angle(self.angle_at(row, col))
    }

    /// Build a control. Out-of-range `spread` and `frequency` are clamped
    /// rather than rejected, and `seed` is reduced to one cycle; the
    /// cursor starts at the origin.
    pub fn new(
        seed: u64,
        spread: u64,
        frequency: u64,
        background_mode: bool,
        dialup_mode: bool,
        print_color: bool,
    ) -> (c: ColorControl)
        ensures
            c.wf(),
            c.seed == seed % PARAM_SCALE,
            c.spread == clamp_param(spread),
            c.frequency == clamp_param(frequency),
            c.background_mode == background_mode,
            c.dialup_mode == dialup_mode,
            c.print_color == print_color,
            c.row == 0,
            c.col == 0,
    {
        ColorControl {
            seed: seed % PARAM_SCALE,
            spread: if spread == 0 {
                1
            } else if spread > PARAM_MAX {
                PARAM_MAX
            } else {
                spread
            },
            frequency: if frequency == 0 {
                1
            } else if frequency > PARAM_MAX {
                PARAM_MAX
            } else {
                frequency
            },
            background_mode,
            dialup_mode,
            print_color,
            row: 0,
            col: 0,
        }
    }

    /// The color function. It reads only the control's parameters and its
    /// arguments, and its result equals `rgb_at_spec` of those values, so
    /// two invocations at the same position always return the same triple.
    pub fn rainbow_at(&self, row: u64, col: u64) -> (c: Rgb)
        requires
            self.wf(),
        ensures
            c == self.rgb_at_spec(row as int, col as int),
    {
        let pos: u128 = (col as u128) * 1_000_000 / (self.spread as u128) + (row as u128) * 1000;
        proof {
            let hi: int = (u64::MAX as int) * 1_000_000;
            assert((col as int) * 1_000_000 <= hi);
            vstd::arithmetic::div_mod::lemma_div_is_ordered(
                (col as int) * 1_000_000,
                hi,
                self.spread as int,
            );
            assert(pos < 0x1_0000_0000_0000_0000_0000_0000);
            assert((self.frequency as int) * (pos as int) <= 1_000_000_000
                * 0x1_0000_0000_0000_0000_0000_0000) by (nonlinear_arith)
                requires
                    self.frequency <= 1_000_000_000,
                    0 <= pos < 0x1_0000_0000_0000_0000_0000_0000,
            ;
        }
        let phase: u128 = (self.frequency as u128) * pos / 1000 + (self.seed as u128);
        let a: u16 = ((phase * 1536 / 1000) % 1536) as u16;
        let g_angle: u16 = (a + 1024) % 1536;
        let b_angle: u16 = (a + 512) % 1536;
        Rgb { r: wave_value(a), g: wave_value(g_angle), b: wave_value(b_angle) }
    }
}

/// At every reduced angle some channel sits at the top of its wave and
/// some at the bottom, so the three channels of the rainbow are never all
/// equal: the phase shifts keep the hue visibly saturated everywhere.
pub proof fn lemma_hue_channels_span(a: int)
    requires
        0 <= a < 1536,
    ensures
        rgb_of_angle(a).r == 255 || rgb_of_angle(a).g == 255 || rgb_of_angle(a).b == 255,
        rgb_of_angle(a).r == 0 || rgb_of_angle(a).g == 0 || rgb_of_angle(a).b == 0,
        !(rgb_of_angle(a).r == rgb_of_angle(a).g && rgb_of_angle(a).g == rgb_of_angle(a).b),
{
    lemma_reduce_shift(a + 1024);
    lemma_reduce_shift(a + 512);
}

/// Reducing a value below two cycles by one cycle: the concrete form of
/// the modulus that the channel shifts produce.
proof fn lemma_reduce_shift(x: int)
    requires
        0 <= x < 3072,
    ensures
        x % 1536 == if x < 1536 {
            x
        } else {
            x - 1536
        },
{
    if x < 1536 {
        vstd::arithmetic::div_mod::lemma_small_mod(x as nat, 1536nat);
    } else {
        vstd::arithmetic::div_mod::lemma_mod_sub_multiples_vanish(x, 1536);
        vstd::arithmetic::div_mod::lemma_small_mod((x - 1536) as nat, 1536nat);
    }
}

/// The channel-span fact lifted to a control and cursor position: at any
/// position of a well-formed control the computed triple has a channel at
/// 255 and a channel at 0, hence no grey output anywhere.
pub proof fn lemma_rainbow_channels_differ(c: ColorControl, row: int, col: int)
    requires
        c.wf(),
        0 <= row,
        0 <= col,
    ensures
        !(c.rgb_at_spec(row, col).r == c.rgb_at_spec(row, col).g
            && c.rgb_at_spec(row, col).g == c.rgb_at_spec(row, col).b),
        c.rgb_at_spec(row, col).r == 255 || c.rgb_at_spec(row, col).g == 255
            || c.rgb_at_spec(row, col).b == 255,
        c.rgb_at_spec(row, col).r == 0 || c.rgb_at_spec(row, col).g == 0
            || c.rgb_at_spec(row, col).b == 0,
{
    let a = c.angle_at(row, col);
    assert(0 <= a < 1536) by {
        vstd::arithmetic::div_mod::lemma_mod_bound(
            c.position_phase(row, col) * 1536 / 1000,
            1536,
        );
    };
    lemma_hue_channels_span(a);
}

} // verus!
