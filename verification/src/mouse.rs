//! The packets of a PS/2 mouse.
//!
//! After it has acknowledged, the mouse sends packets of three bytes: the
//! buttons and the signs of the movement, the movement to the right, and the
//! movement upwards.

use vstd::prelude::*;

verus! {

/// The byte with which the mouse acknowledges a command.
pub const ACK: i32 = 0xfa;

/// Which buttons of the mouse are down.
#[derive(Clone, Copy, Debug, PartialEq, Eq, Structural)]
pub struct MouseButtons {
    pub left: bool,
    pub center: bool,
    pub right: bool,
}

impl MouseButtons {
    /// No button is down.
    pub fn new() -> (r: MouseButtons)
        ensures
            r == (MouseButtons { left: false, center: false, right: false }),
    {
        MouseButtons { left: false, center: false, right: false }
    }

    /// Reads the buttons from the first byte of a packet: bit 0 is the left
    /// one, bit 1 the right one, bit 2 the one in the middle.
    pub fn purse_data(&mut self, data: i32)
        ensures
            *final(self) == MouseButtons::of(data),
    {
        self.left = data & 0x01 != 0;
        self.right = data & 0x02 != 0;
        self.center = data & 0x04 != 0;
    }

    /// The buttons that the first byte `data` of a packet names.
    pub open spec fn of(data: i32) -> MouseButtons {
        MouseButtons { left: data & 0x01 != 0, right: data & 0x02 != 0, center: data & 0x04 != 0 }
    }
}

/// What is known of the mouse: the bytes of the packet that is arriving, how
/// far it has arrived, and what the last whole packet said.
#[derive(Clone, Copy, Debug, PartialEq, Eq)]
pub struct MouseDevice {
    pub data_from_device: [i32; 3],
    pub phase: i32,
    pub x_speed: i32,
    pub y_speed: i32,
    pub buttons: MouseButtons,
}

/// Whether `data` can be the first byte of a packet: bit 3 is set and bits 6
/// and 7 are clear.
pub open spec fn spec_is_correct_first_byte(data: i32) -> bool {
    data & 0xc8 == 0x08
}

/// The movement that the value `value` stands for when the sign flag of its
/// direction is `negative`: with the flag every bit above the low eight is
/// set, which for a byte is the byte less 256.
pub open spec fn signed_speed(value: i32, negative: bool) -> i32 {
    if negative {
        value | -256i32
    } else {
        value
    }
}

/// Whether the movement upwards of a packet cannot be told, because the sign
/// of the third value cannot be turned: the packet names no sign for it and
/// the value is the least number.
pub open spec fn unturnable(first: i32, third: i32) -> bool {
    first & 0x20 == 0 && third == i32::MIN
}

impl MouseDevice {
    /// A mouse that has not acknowledged yet.
    pub fn new() -> (r: MouseDevice)
        ensures
            r.data_from_device@ == seq![0i32, 0i32, 0i32],
            r.phase == 0,
            r.x_speed == 0,
            r.y_speed == 0,
            r.buttons == (MouseButtons { left: false, center: false, right: false }),
    {
        let r = MouseDevice {
            data_from_device: [0; 3],
            phase: 0,
            x_speed: 0,
            y_speed: 0,
            buttons: MouseButtons::new(),
        };
        assert(r.data_from_device@ =~= seq![0i32, 0i32, 0i32]);
        r
    }

    /// Takes the value `data` from the mouse in. The first part of the result
    /// says whether a packet is whole; the second is the mouse afterwards.
    ///
    /// Before the acknowledgement every value but the acknowledgement is
    /// dropped. Then the first byte of a packet is awaited, and a value that
    /// cannot be one is dropped; the second and third value follow. With the
    /// third value the packet is whole and is read as
    /// [`MouseDevice::spec_purse_data`] says. In any other phase the mouse
    /// goes back to await a first byte.
    ///
    /// Every value is taken, but for one: a third value whose sign cannot be
    /// turned.
    pub fn put_data(self, data: i32) -> (r: (bool, MouseDevice))
        requires
            self.phase == 3 ==> !unturnable(self.data_from_device[0], data),
        ensures
            r == self.spec_put_data(data),
    {
        match self.phase {
            0 => (
                false,
                MouseDevice {
                    phase: if data == ACK {
                        1
                    } else {
                        0
                    },
                    ..self
                },
            ),
            1 => {
                let mut new_self = self;
                if Self::is_correct_first_byte_from_device(data) {
                    new_self.phase = 2;
                    new_self.data_from_device[0] = data;
                }
                proof {
                    if spec_is_correct_first_byte(data) {
                        lemma_with(self.data_from_device, 0, data, new_self.data_from_device);
                    }
                }
                (false, new_self)
            },
            2 => {
                let mut new_self = self;
                new_self.data_from_device[1] = data;
                new_self.phase = 3;
                proof {
                    lemma_with(self.data_from_device, 1, data, new_self.data_from_device);
                }
                (false, new_self)
            },
            3 => {
                let mut new_self = self;

                new_self.data_from_device[2] = data;
                new_self.phase = 1;
                proof {
                    lemma_with(self.data_from_device, 2, data, new_self.data_from_device);
                }

                (true, new_self.purse_data())
            },
            _ => (true, MouseDevice { phase: 1, ..self }),
        }
    }

    /// The mouse after the value `data` and whether a packet is whole.
    pub open spec fn spec_put_data(self, data: i32) -> (bool, MouseDevice) {
        if self.phase == 0 {
            (
                false,
                MouseDevice {
                    phase: if data == ACK {
                        1
                    } else {
                        0
                    },
                    ..self
                },
            )
        } else if self.phase == 1 {
            if spec_is_correct_first_byte(data) {
                (
                    false,
                    MouseDevice {
                        phase: 2,
                        data_from_device: spec_with(self.data_from_device, 0, data),
                        ..self
                    },
                )
            } else {
                (false, self)
            }
        } else if self.phase == 2 {
            (
                false,
                MouseDevice {
                    phase: 3,
                    data_from_device: spec_with(self.data_from_device, 1, data),
                    ..self
                },
            )
        } else if self.phase == 3 {
            (
                true,
                (MouseDevice {
                    phase: 1,
                    data_from_device: spec_with(self.data_from_device, 2, data),
                    ..self
                }).spec_purse_data(),
            )
        } else {
            (true, MouseDevice { phase: 1, ..self })
        }
    }

    /// The mouse with the packet that it holds read: the buttons from the
    /// first byte; the movement to the right from the second value, negative
    /// where bit 4 of the first byte is set; the movement downwards, which is
    /// the third value, negative where bit 5 of the first byte is set, with
    /// its sign turned.
    pub open spec fn spec_purse_data(self) -> MouseDevice {
        let first = self.data_from_device[0];
        MouseDevice {
            buttons: MouseButtons::of(first),
            x_speed: signed_speed(self.data_from_device[1], first & 0x10 != 0),
            y_speed: (-signed_speed(self.data_from_device[2], first & 0x20 != 0)) as i32,
            ..self
        }
    }

    /// Reads the packet that the mouse holds.
    fn purse_data(self) -> (r: MouseDevice)
        requires
            !unturnable(self.data_from_device[0], self.data_from_device[2]),
        ensures
            r == self.spec_purse_data(),
    {
        let mut new_self = self;
        new_self.buttons.purse_data(new_self.data_from_device[0]);
        new_self.x_speed = new_self.data_from_device[1];
        new_self.y_speed = new_self.data_from_device[2];

        if new_self.data_from_device[0] & 0x10 != 0 {
            // -256 = 0xffffff00
            new_self.x_speed |= -256;
        }

        if new_self.data_from_device[0] & 0x20 != 0 {
            let third: i32 = new_self.y_speed;
            new_self.y_speed |= -256;
            let y: i32 = new_self.y_speed;
            assert(y != i32::MIN) by (bit_vector)
                requires
                    y == third | -256i32,
            ;
        }

        new_self.y_speed = -new_self.y_speed;

        new_self
    }

    /// Whether `data` can be the first byte of a packet.
    pub fn is_correct_first_byte_from_device(data: i32) -> (r: bool)
        ensures
            r == spec_is_correct_first_byte(data),
    {
        data & 0xc8 == 0x08
    }

    /// How the phases follow each other, whatever the values hold: a packet
    /// is whole exactly with the value that comes in phase 3; before the
    /// acknowledgement the mouse stays in phase 0, and once it has
    /// acknowledged it goes through the phases 1, 2 and 3 and never back to
    /// phase 0.
    pub proof fn lemma_phases(self, data: i32)
        requires
            0 <= self.phase <= 3,
        ensures
            self.spec_put_data(data).0 == (self.phase == 3),
            self.spec_put_data(data).1.phase == (if self.phase == 0 {
                if data == ACK {
                    1i32
                } else {
                    0i32
                }
            } else if self.phase == 1 {
                if data & 0xc8 == 0x08 {
                    2i32
                } else {
                    1i32
                }
            } else if self.phase == 2 {
                3i32
            } else {
                1i32
            }),
            self.phase >= 1 ==> 1 <= self.spec_put_data(data).1.phase <= 3,
    {
    }

    /// For a byte, the sign flag takes 256 off: a packet of bytes names a
    /// movement between -256 and 255 in each direction.
    pub proof fn lemma_signed_byte(value: i32)
        requires
            0 <= value < 256,
        ensures
            signed_speed(value, true) == value - 256,
            signed_speed(value, false) == value,
    {
        assert(0 <= value < 256 ==> (value | -256i32) == value - 256) by (bit_vector);
    }
}

/// The three bytes `bytes` with the byte at `index` replaced by `value`.
pub open spec fn spec_with(bytes: [i32; 3], index: int, value: i32) -> [i32; 3] {
    if index == 0 {
        [value, bytes[1], bytes[2]]
    } else if index == 1 {
        [bytes[0], value, bytes[2]]
    } else {
        [bytes[0], bytes[1], value]
    }
}

/// An array that was written at one index is the array that [`spec_with`]
/// names.
proof fn lemma_with(bytes: [i32; 3], index: int, value: i32, written: [i32; 3])
    requires
        0 <= index < 3,
        written@ == bytes@.update(index, value),
    ensures
        written == spec_with(bytes, index, value),
{
    assert(written@ =~= spec_with(bytes, index, value)@);
}

} // verus!
