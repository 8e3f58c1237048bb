use vstd::prelude::*;

verus! {

/// Wire bit of the "move up" flag.
pub const UP: u16 = 0x0400;
/// Wire bit of the "move down" flag.
pub const DOWN: u16 = 0x0800;
/// Wire bit of the "move left" flag.
pub const LEFT: u16 = 0x1000;
/// Wire bit of the "move right" flag.
pub const RIGHT: u16 = 0x2000;
/// Wire bit of the primary action.
pub const PRIMARY: u16 = 0x4000;
/// Wire bit of the secondary action.
pub const SECONDARY: u16 = 0x8000;
/// Mask of the quantized facing angle: the low ten bits.
pub const ANGLE: u16 = 0x03ff;
/// Number of quantization steps in one full turn.
pub const ANGLE_STEPS: u16 = 1024;

/// One player's intent for one frame. The facing angle is already quantized:
/// `angle` counts steps of a full turn divided into `ANGLE_STEPS`, starting at -pi.
#[derive(Clone, Copy, Debug, PartialEq, Eq, Structural)]
pub struct PlayerInput {
    pub angle: u16,
    pub primary: bool,
    pub secondary: bool,
    pub up: bool,
    pub down: bool,
    pub left: bool,
    pub right: bool,
}

/// `bit` when `b` holds, zero otherwise.
pub open spec fn flag_bits(b: bool, bit: u16) -> u16 {
    if b {
        bit
    } else {
        0
    }
}

/// The wire form of an input: angle in the low ten bits, one bit per flag above it.
pub open spec fn encode_spec(i: PlayerInput) -> u16 {
    (i.angle & ANGLE) | flag_bits(i.up, UP) | flag_bits(i.down, DOWN) | flag_bits(i.left, LEFT)
        | flag_bits(i.right, RIGHT) | flag_bits(i.primary, PRIMARY) | flag_bits(
        i.secondary,
        SECONDARY,
    )
}

/// The input that a wire value stands for; every value stands for one.
pub open spec fn decode_spec(x: u16) -> PlayerInput {
    PlayerInput {
        angle: x & ANGLE,
        primary: x & PRIMARY != 0,
        secondary: x & SECONDARY != 0,
        up: x & UP != 0,
        down: x & DOWN != 0,
        left: x & LEFT != 0,
        right: x & RIGHT != 0,
    }
}

impl PlayerInput {
    /// An input is representable when its angle fits the ten-bit field.
    pub open spec fn wf(self) -> bool {
        self.angle < ANGLE_STEPS
    }

    /// The input of a player who does nothing: no movement, no action.
    pub open spec fn is_neutral(self) -> bool {
        !self.primary && !self.secondary && !self.up && !self.down && !self.left && !self.right
    }

    /// Movement direction on each axis, each in -1..=1: right minus left, up minus down.
    pub open spec fn movement_of(self) -> (i8, i8) {
        (
            ((if self.right { 1int } else { 0int }) - (if self.left { 1int } else { 0int })) as i8,
            ((if self.up { 1int } else { 0int }) - (if self.down { 1int } else { 0int })) as i8,
        )
    }

    /// Movement direction of this input; the caller scales it by the movement speed.
    pub fn movement_vec(&self) -> (r: (i8, i8))
        ensures
            r == self.movement_of(),
    {
        let x: i8 = (if self.right { 1i8 } else { 0i8 }) - (if self.left { 1i8 } else { 0i8 });
        let y: i8 = (if self.up { 1i8 } else { 0i8 }) - (if self.down { 1i8 } else { 0i8 });
        (x, y)
    }
}

fn flag(b: bool, bit: u16) -> (r: u16)
    ensures
        r == flag_bits(b, bit),
{
    if b {
        bit
    } else {
        0
    }
}

/// Packs an input into its sixteen-bit wire form.
pub fn encode(input: PlayerInput) -> (r: u16)
    ensures
        r == encode_spec(input),
{
    (input.angle & ANGLE) | flag(input.up, UP) | flag(input.down, DOWN) | flag(input.left, LEFT)
        | flag(input.right, RIGHT) | flag(input.primary, PRIMARY) | flag(
        input.secondary,
        SECONDARY,
    )
}

/// Unpacks a wire value; never fails, since every bit has a meaning.
pub fn decode(x: u16) -> (r: PlayerInput)
    ensures
        r == decode_spec(x),
{
    PlayerInput {
        angle: x & ANGLE,
        primary: x & PRIMARY != 0,
        secondary: x & SECONDARY != 0,
        up: x & UP != 0,
        down: x & DOWN != 0,
        left: x & LEFT != 0,
        right: x & RIGHT != 0,
    }
}

impl From<u16> for PlayerInput {
    fn from(x: u16) -> (r: PlayerInput) {
        decode(x)
    }
}

impl vstd::std_specs::convert::FromSpecImpl<u16> for PlayerInput {
    open spec fn obeys_from_spec() -> bool {
        true
    }

    open spec fn from_spec(x: u16) -> PlayerInput {
        decode_spec(x)
    }
}

impl From<PlayerInput> for u16 {
    fn from(input: PlayerInput) -> (r: u16) {
        encode(input)
    }
}

impl vstd::std_specs::convert::FromSpecImpl<PlayerInput> for u16 {
    open spec fn obeys_from_spec() -> bool {
        true
    }

    open spec fn from_spec(input: PlayerInput) -> u16 {
        encode_spec(input)
    }
}

/// Decoding the encoding of a representable input gives back every flag and the
/// quantized angle exactly.
pub proof fn lemma_decode_encode(i: PlayerInput)
    requires
        i.wf(),
    ensures
        decode_spec(encode_spec(i)) == i,
{
    let (a, u, d, l, r, p, s) = (
        i.angle,
        flag_bits(i.up, UP),
        flag_bits(i.down, DOWN),
        flag_bits(i.left, LEFT),
        flag_bits(i.right, RIGHT),
        flag_bits(i.primary, PRIMARY),
        flag_bits(i.secondary, SECONDARY),
    );
    assert(a < 1024 && (u == 0 || u == 0x0400) && (d == 0 || d == 0x0800) && (l == 0 || l == 0x1000)
        && (r == 0 || r == 0x2000) && (p == 0 || p == 0x4000) && (s == 0 || s == 0x8000) ==> ({
        let x = (a & 0x03ff) | u | d | l | r | p | s;
        x & 0x03ff == a && (x & 0x0400 != 0) == (u != 0) && (x & 0x0800 != 0) == (d != 0) && (x
            & 0x1000 != 0) == (l != 0) && (x & 0x2000 != 0) == (r != 0) && (x & 0x4000 != 0) == (p
            != 0) && (x & 0x8000 != 0) == (s != 0)
    })) by (bit_vector);
}

/// Every wire value is the encoding of the input it decodes to: the codec is a
/// bijection between wire values and representable inputs.
pub proof fn lemma_encode_decode(x: u16)
    ensures
        decode_spec(x).wf(),
        encode_spec(decode_spec(x)) == x,
{
    assert(x & 0x03ff < 1024) by (bit_vector);
    assert((x & 0x0400 == 0 || x & 0x0400 == 0x0400) && (x & 0x0800 == 0 || x & 0x0800 == 0x0800)
        && (x & 0x1000 == 0 || x & 0x1000 == 0x1000) && (x & 0x2000 == 0 || x & 0x2000 == 0x2000)
        && (x & 0x4000 == 0 || x & 0x4000 == 0x4000) && (x & 0x8000 == 0 || x & 0x8000 == 0x8000))
        by (bit_vector);
    let i = decode_spec(x);
    assert(flag_bits(i.up, UP) == x & 0x0400);
    assert(flag_bits(i.down, DOWN) == x & 0x0800);
    assert(flag_bits(i.left, LEFT) == x & 0x1000);
    assert(flag_bits(i.right, RIGHT) == x & 0x2000);
    assert(flag_bits(i.primary, PRIMARY) == x & 0x4000);
    assert(flag_bits(i.secondary, SECONDARY) == x & 0x8000);
    assert(((x & 0x03ff) & 0x03ff) | (x & 0x0400) | (x & 0x0800) | (x & 0x1000) | (x & 0x2000) | (
    x & 0x4000) | (x & 0x8000) == x) by (bit_vector);
}

} // verus!
