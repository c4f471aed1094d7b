//! The one display a plugin sees.

use vstd::prelude::*;
use crate::display_list::{zero, Bounds, Extent, WirePoint};
use crate::platform_types::Scalar;

verus! {

/// The number behind the display's identity.
pub const DISPLAY_NUMBER: u128 = 0x6770_7569_5f70_6c75_6769_6e00_0000_0001;

/// The bits of the scalar 8192.
pub const DISPLAY_EXTENT_BITS: u32 = 0x4600_0000;

/// The bytes of a number, the most significant first.
pub open spec fn big_endian(number: nat, count: nat) -> Seq<u8>
    decreases count,
{
    if count == 0 {
        Seq::empty()
    } else {
        big_endian(number / 256, (count - 1) as nat).push((number % 256) as u8)
    }
}

/// The bytes of `uuid::Uuid::from_u128`: the number's sixteen bytes, the most significant
/// first.
#[verifier::external_body]
fn uuid_bytes(number: u128) -> (bytes: Vec<u8>)
    ensures
        bytes@ == big_endian(number as nat, 16),
{
    uuid::Uuid::from_u128(number).as_bytes().to_vec()
}

/// A display that is large enough for any window, the same in every plugin.
#[derive(Debug)]
pub struct PluginDisplay {
    uuid: Vec<u8>,
}

impl PluginDisplay {
    /// The bytes of its identity.
    pub closed spec fn identity(&self) -> Seq<u8> {
        self.uuid@
    }

    /// The display.
    pub fn new() -> (display: PluginDisplay)
        ensures
            display.identity() == big_endian(DISPLAY_NUMBER as nat, 16),
    {
        PluginDisplay { uuid: uuid_bytes(DISPLAY_NUMBER) }
    }

    /// Its number among displays.
    pub fn id(&self) -> (id: u32)
        ensures
            id == 1,
    {
        1
    }

    /// The bytes of its identity.
    pub fn uuid(&self) -> (bytes: &Vec<u8>)
        ensures
            bytes@ == self.identity(),
    {
        &self.uuid
    }

    /// Where it is: a square at the origin.
    pub fn bounds(&self) -> (bounds: Bounds)
        ensures
            bounds == (Bounds {
                origin: WirePoint { x: zero(), y: zero() },
                size: Extent {
                    width: Scalar { bits: DISPLAY_EXTENT_BITS },
                    height: Scalar { bits: DISPLAY_EXTENT_BITS },
                },
            }),
    {
        Bounds {
            origin: WirePoint { x: zero(), y: zero() },
            size: Extent {
                width: Scalar { bits: DISPLAY_EXTENT_BITS },
                height: Scalar { bits: DISPLAY_EXTENT_BITS },
            },
        }
    }
}

/// The display's identity spells its name, and ends in its number among displays.
pub proof fn the_display_is_known_by_name()
    ensures
        big_endian(DISPLAY_NUMBER as nat, 16) == seq![
            'g' as u8,
            'p' as u8,
            'u' as u8,
            'i' as u8,
            '_' as u8,
            'p' as u8,
            'l' as u8,
            'u' as u8,
            'g' as u8,
            'i' as u8,
            'n' as u8,
            0u8,
            0u8,
            0u8,
            0u8,
            1u8,
        ],
{
    reveal_with_fuel(big_endian, 17);
}

/// Each byte of a number weighs as much as all behind it can: one more byte behind makes the
/// rest count 256 times.
pub proof fn bytes_are_most_significant_first(number: nat, count: nat, last: u8)
    ensures
        big_endian(number, 0).len() == 0,
        big_endian(number * 256 + last as nat, count + 1) == big_endian(number, count).push(last),
{
    assert((number * 256 + last as nat) / 256 == number);
    assert((number * 256 + last as nat) % 256 == last);
}

/// The display is 8192 wide and high, two to the thirteenth.
pub proof fn the_display_is_large()
    ensures
        DISPLAY_EXTENT_BITS == (127 + 13) * 0x80_0000,
{
}

} // verus!
