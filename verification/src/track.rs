//! Source-independent values for tablature notes, durations and beat addresses.
//!
//! A track is a sequence of bars; each bar holds parallel voices, each voice a
//! sequence of beats and each beat a chord of simultaneous notes. This module
//! holds the exact, integer-valued parts of that model: fret values, written
//! durations (measured exactly in quarter notes) and stable beat addresses.
use crate::error::{ErrorKind, RenderError};
use crate::text::{decimal, spec_decimal};
use vstd::prelude::*;

verus! {

/// The tab-specific value shown on a string.
#[derive(Clone, Copy, Debug, PartialEq, Eq, Structural)]
pub enum Fret {
    /// A fretted or open note.
    Number(u16),
    /// A muted or percussive note.
    Dead,
    /// A continuation retaining the prior fret label.
    Tied(u16),
}

impl Default for Fret {
    fn default() -> (f: Self)
        ensures
            f == Fret::Number(0),
    {
        Fret::Number(0)
    }
}

/// One tab note and its optional staff pitch.
#[derive(Clone, Copy, Debug, Default, PartialEq, Eq, Structural)]
pub struct Note {
    /// One-based, from the top string.
    pub string: usize,
    /// The tablature value to display.
    pub fret: Fret,
    /// Derived during import so staff view never depends on optional spelling data.
    pub midi: Option<u8>,
}

/// The characters of the tablature label of a fret: its number in decimal,
/// `x` for a dead note, wrapped in parentheses for a ghost note or in angle
/// brackets for a harmonic.
pub open spec fn spec_fret_label(fret: Fret, ghost: bool, harmonic: bool) -> Seq<char> {
    let core = match fret {
        Fret::Number(n) => spec_decimal(n as nat),
        Fret::Tied(n) => spec_decimal(n as nat),
        Fret::Dead => seq!['x'],
    };
    if ghost {
        seq!['('] + core + seq![')']
    } else if harmonic {
        seq!['<'] + core + seq!['>']
    } else {
        core
    }
}

/// Formats the fret label shown for a tablature note.
pub fn label(fret: Fret, ghost: bool, harmonic: bool) -> (s: Vec<char>)
    ensures
        s@ == spec_fret_label(fret, ghost, harmonic),
{
    let core = match fret {
        Fret::Number(n) => decimal(n as u64),
        Fret::Tied(n) => decimal(n as u64),
        Fret::Dead => {
            let mut v: Vec<char> = Vec::new();
            v.push('x');
            v
        },
    };
    if ghost {
        let mut v: Vec<char> = Vec::new();
        v.push('(');
        let mut i: usize = 0;
        while i < core.len()
            invariant
                i <= core.len(),
                v@ == seq!['('] + core@.subrange(0, i as int),
            decreases core.len() - i,
        {
            v.push(core[i]);
            i = i + 1;
            assert(core@.subrange(0, i as int) == core@.subrange(0, i - 1).push(core@[i - 1]));
        }
        v.push(')');
        assert(core@.subrange(0, core@.len() as int) == core@);
        v
    } else if harmonic {
        let mut v: Vec<char> = Vec::new();
        v.push('<');
        let mut i: usize = 0;
        while i < core.len()
            invariant
                i <= core.len(),
                v@ == seq!['<'] + core@.subrange(0, i as int),
            decreases core.len() - i,
        {
            v.push(core[i]);
            i = i + 1;
            assert(core@.subrange(0, i as int) == core@.subrange(0, i - 1).push(core@[i - 1]));
        }
        v.push('>');
        assert(core@.subrange(0, core@.len() as int) == core@);
        v
    } else {
        core
    }
}

/// A conventional duration denominator, dot count, and optional tuplet ratio.
#[derive(Clone, Copy, Debug, PartialEq, Eq)]
pub struct Duration {
    /// Whole-note denominator (`4` is a quarter); `-2` and `-4` are breve and longa.
    pub value: i16,
    /// Number of augmentation dots, from zero through three.
    pub dots: u8,
    /// `(played, in_time_of)`, such as `(3, 2)` for triplets.
    pub tuplet: Option<(u8, u8)>,
}

impl Default for Duration {
    /// An undotted quarter note.
    fn default() -> (d: Self)
        ensures
            d == (Duration { value: 4, dots: 0, tuplet: None }),
    {
        Duration { value: 4, dots: 0, tuplet: None }
    }
}

/// An exact, unreduced length in quarter notes: `numerator / denominator`.
#[derive(Clone, Copy, Debug, PartialEq, Eq, Structural)]
pub struct QuarterBeats {
    /// Numerator of the length.
    pub numerator: u32,
    /// Positive denominator of the length.
    pub denominator: u32,
}

/// `2` raised to `exponent`.
pub open spec fn pow2(exponent: nat) -> nat
    decreases exponent,
{
    if exponent == 0 {
        1
    } else {
        2 * pow2((exponent - 1) as nat)
    }
}

impl Duration {
    /// The note value is a longa, a breve, or a whole through 256th note.
    pub open spec fn has_valid_value(self) -> bool {
        self.value == -4 || self.value == -2 || self.value == 1 || self.value == 2
            || self.value == 4 || self.value == 8 || self.value == 16 || self.value == 32
            || self.value == 64 || self.value == 128 || self.value == 256
    }

    /// Dots, tuplet and value are all representable.
    pub open spec fn is_valid(self) -> bool {
        &&& self.dots <= 3
        &&& match self.tuplet {
            Some((played, in_time_of)) => played != 0 && in_time_of != 0,
            None => true,
        }
        &&& self.has_valid_value()
    }

    /// Undotted length as a fraction `(numerator, denominator)` of quarter notes.
    pub open spec fn base_fraction(self) -> (nat, nat) {
        if self.value == -4 {
            (16, 1)
        } else if self.value == -2 {
            (8, 1)
        } else {
            (4, self.value as nat)
        }
    }

    /// Numerator of the exact length: dots add halves, tuplets scale by
    /// `in_time_of / played`.
    pub open spec fn spec_numerator(self) -> nat {
        let tuplet_factor: nat = match self.tuplet {
            Some((_, in_time_of)) => in_time_of as nat,
            None => 1,
        };
        self.base_fraction().0 * ((pow2((self.dots + 1) as nat) - 1) as nat) * tuplet_factor
    }

    /// Denominator of the exact length.
    pub open spec fn spec_denominator(self) -> nat {
        let tuplet_factor: nat = match self.tuplet {
            Some((played, _)) => played as nat,
            None => 1,
        };
        self.base_fraction().1 * pow2(self.dots as nat) * tuplet_factor
    }

    /// Computes this written duration exactly in quarter-note units.
    pub fn compute_quarter_beats(self) -> (r: Result<QuarterBeats, RenderError>)
        ensures
            r is Ok <==> self.is_valid(),
            r matches Ok(q) ==> q.numerator as nat == self.spec_numerator()
                && q.denominator as nat == self.spec_denominator() && q.denominator > 0
                && q.numerator > 0,
            r matches Err(e) ==> e.kind == ErrorKind::InvalidInput && e.message@
                == "invalid duration"@,
    {
        if self.dots > 3 {
            return Err(RenderError::invalid_input(String::from_str("invalid duration")));
        }
        let (played, in_time_of): (u32, u32) = match self.tuplet {
            Some((a, b)) => {
                if a == 0 || b == 0 {
                    return Err(RenderError::invalid_input(String::from_str("invalid duration")));
                }
                (a as u32, b as u32)
            },
            None => (1, 1),
        };
        let (base_numerator, base_denominator): (u32, u32) = if self.value == -4 {
            (16, 1)
        } else if self.value == -2 {
            (8, 1)
        } else if self.value == 1 || self.value == 2 || self.value == 4 || self.value == 8
            || self.value == 16 || self.value == 32 || self.value == 64 || self.value == 128
            || self.value == 256 {
            (4, self.value as u32)
        } else {
            return Err(RenderError::invalid_input(String::from_str("invalid duration")));
        };
        let (dot_numerator, dot_denominator): (u32, u32) = if self.dots == 0 {
            (1, 1)
        } else if self.dots == 1 {
            (3, 2)
        } else if self.dots == 2 {
            (7, 4)
        } else {
            (15, 8)
        };
        assert(pow2(1) == 2 && pow2(2) == 4 && pow2(3) == 8 && pow2(4) == 16) by {
            reveal_with_fuel(pow2, 5);
        }
        assert(base_numerator * dot_numerator <= 240) by (nonlinear_arith)
            requires
                base_numerator <= 16,
                dot_numerator <= 15,
        ;
        assert(base_denominator * dot_denominator <= 2048) by (nonlinear_arith)
            requires
                base_denominator <= 256,
                dot_denominator <= 8,
        ;
        assert((base_numerator * dot_numerator) * in_time_of <= 240 * 255) by (nonlinear_arith)
            requires
                base_numerator * dot_numerator <= 240,
                in_time_of <= 255,
        ;
        assert((base_denominator * dot_denominator) * played <= 2048 * 255) by (nonlinear_arith)
            requires
                base_denominator * dot_denominator <= 2048,
                played <= 255,
        ;
        let numerator = base_numerator * dot_numerator * in_time_of;
        let denominator = base_denominator * dot_denominator * played;
        assert(denominator > 0) by (nonlinear_arith)
            requires
                base_denominator > 0,
                dot_denominator > 0,
                played > 0,
                denominator == base_denominator * dot_denominator * played,
        ;
        assert(numerator > 0) by (nonlinear_arith)
            requires
                base_numerator > 0,
                dot_numerator > 0,
                in_time_of > 0,
                numerator == base_numerator * dot_numerator * in_time_of,
        ;
        Ok(QuarterBeats { numerator, denominator })
    }
}

/// Stable zero-based position of a beat in a track.
#[derive(Clone, Copy, Debug, PartialEq, Eq, PartialOrd, Ord, Hash, Structural)]
pub struct BeatAddress {
    /// Bar index.
    pub bar: usize,
    /// Voice index inside the bar.
    pub voice: usize,
    /// Beat index inside the voice.
    pub beat: usize,
}

/// Inclusive range selected by the user.
#[derive(Clone, Copy, Debug, PartialEq, Eq, Structural)]
pub struct Selection {
    /// Fixed endpoint where selection began.
    pub anchor: BeatAddress,
    /// Most recently selected endpoint.
    pub end: BeatAddress,
}

/// The length of `d`'s value and tuplet with `dots` dots, as the exact
/// fraction that [`Duration::compute_quarter_beats`] returns.
pub open spec fn with_dots(d: Duration, dots: u8) -> Duration {
    Duration { value: d.value, dots, tuplet: d.tuplet }
}

/// Written lengths follow the notation: an undotted note of value `v` lasts
/// `4 / v` quarter notes (a breve 8, a longa 16), scaled by `in_time_of /
/// played` in a tuplet; the first dot adds half the undotted length, and each
/// further dot adds half of what the previous dot added. Lengths are the
/// fractions `spec_numerator / spec_denominator`, compared by cross-multiplying.
pub proof fn dots_add_halves(d: Duration)
    requires
        d.is_valid(),
    ensures
        ({
            let (played, in_time_of): (int, int) = match d.tuplet {
                Some((p, t)) => (p as int, t as int),
                None => (1, 1),
            };
            let n0 = with_dots(d, 0).spec_numerator() as int;
            let d0 = with_dots(d, 0).spec_denominator() as int;
            let n1 = with_dots(d, 1).spec_numerator() as int;
            let d1 = with_dots(d, 1).spec_denominator() as int;
            let n2 = with_dots(d, 2).spec_numerator() as int;
            let d2 = with_dots(d, 2).spec_denominator() as int;
            let n3 = with_dots(d, 3).spec_numerator() as int;
            let d3 = with_dots(d, 3).spec_denominator() as int;
            &&& d0 > 0 && d1 > 0 && d2 > 0 && d3 > 0
            &&& d.value > 0 ==> n0 * (d.value as int) * played == 4 * in_time_of * d0
            &&& d.value == -2 ==> n0 * played == 8 * in_time_of * d0
            &&& d.value == -4 ==> n0 * played == 16 * in_time_of * d0
            &&& 2 * (n1 * d0 - n0 * d1) == n0 * d1
            &&& 4 * (n2 * d1 - n1 * d2) * d0 == n0 * d2 * d1
            &&& 8 * (n3 * d2 - n2 * d3) * d0 == n0 * d3 * d2
        }),
{
    let (played, in_time_of): (int, int) = match d.tuplet {
        Some((p, t)) => (p as int, t as int),
        None => (1, 1),
    };
    assert(pow2(0) == 1 && pow2(1) == 2 && pow2(2) == 4 && pow2(3) == 8 && pow2(4) == 16) by {
        reveal_with_fuel(pow2, 5);
    }
    let b0 = d.base_fraction().0 as int;
    let b1 = d.base_fraction().1 as int;
    let n0 = with_dots(d, 0).spec_numerator() as int;
    let d0 = with_dots(d, 0).spec_denominator() as int;
    let n1 = with_dots(d, 1).spec_numerator() as int;
    let d1 = with_dots(d, 1).spec_denominator() as int;
    let n2 = with_dots(d, 2).spec_numerator() as int;
    let d2 = with_dots(d, 2).spec_denominator() as int;
    let n3 = with_dots(d, 3).spec_numerator() as int;
    let d3 = with_dots(d, 3).spec_denominator() as int;
    assert(n0 == b0 * 1 * in_time_of && d0 == b1 * 1 * played);
    assert(n1 == b0 * 3 * in_time_of && d1 == b1 * 2 * played);
    assert(n2 == b0 * 7 * in_time_of && d2 == b1 * 4 * played);
    assert(n3 == b0 * 15 * in_time_of && d3 == b1 * 8 * played);
    assert(b1 > 0 && played > 0);
    assert(d0 > 0 && d1 > 0 && d2 > 0 && d3 > 0) by (nonlinear_arith)
        requires
            b1 > 0,
            played > 0,
            d0 == b1 * 1 * played,
            d1 == b1 * 2 * played,
            d2 == b1 * 4 * played,
            d3 == b1 * 8 * played,
    ;
    assert(2 * (n1 * d0 - n0 * d1) == n0 * d1) by (nonlinear_arith)
        requires
            n0 == b0 * 1 * in_time_of,
            d0 == b1 * 1 * played,
            n1 == b0 * 3 * in_time_of,
            d1 == b1 * 2 * played,
    ;
    assert(4 * (n2 * d1 - n1 * d2) * d0 == n0 * d2 * d1) by (nonlinear_arith)
        requires
            n0 == b0 * 1 * in_time_of,
            d0 == b1 * 1 * played,
            n1 == b0 * 3 * in_time_of,
            d1 == b1 * 2 * played,
            n2 == b0 * 7 * in_time_of,
            d2 == b1 * 4 * played,
    ;
    assert(8 * (n3 * d2 - n2 * d3) * d0 == n0 * d3 * d2) by (nonlinear_arith)
        requires
            n0 == b0 * 1 * in_time_of,
            d0 == b1 * 1 * played,
            n2 == b0 * 7 * in_time_of,
            d2 == b1 * 4 * played,
            n3 == b0 * 15 * in_time_of,
            d3 == b1 * 8 * played,
    ;
    if d.value > 0 {
        assert(b0 == 4 && b1 == d.value as int);
        assert(n0 * (d.value as int) * played == 4 * in_time_of * d0) by (nonlinear_arith)
            requires
                n0 == 4 * 1 * in_time_of,
                d0 == (d.value as int) * 1 * played,
        ;
    } else if d.value == -2 {
        assert(n0 * played == 8 * in_time_of * d0) by (nonlinear_arith)
            requires
                n0 == 8 * 1 * in_time_of,
                d0 == 1 * 1 * played,
        ;
    } else if d.value == -4 {
        assert(n0 * played == 16 * in_time_of * d0) by (nonlinear_arith)
            requires
                n0 == 16 * 1 * in_time_of,
                d0 == 1 * 1 * played,
        ;
    }
}

} // verus!
