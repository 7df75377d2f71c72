//! The input latch: an 8-bit shift register behind one strobe bit.  While
//! the strobe is high every read reloads and returns the primary button; on
//! the falling edge the latch rewinds, the next eight reads hand out the
//! buttons in fixed order, and every read past the eighth returns an open
//! bus line that always reads 1.

use vstd::prelude::*;

verus! {

#[derive(Clone, Copy, Debug, PartialEq, Eq, Structural)]
pub struct Controller {
    pub up: bool,
    pub down: bool,
    pub left: bool,
    pub right: bool,
    pub a: bool,
    pub b: bool,
    pub start: bool,
    pub select: bool,

    pub strobe: bool,
    pub count: u8,
}

/// The bit a read returns, given the state it finds.
pub open spec fn read_value(c: Controller) -> u8 {
    let bit = if c.strobe {
        c.a
    } else {
        match c.count {
            0u8 => c.a,
            1u8 => c.b,
            2u8 => c.select,
            3u8 => c.start,
            4u8 => c.up,
            5u8 => c.down,
            6u8 => c.left,
            7u8 => c.right,
            _ => true,
        }
    };
    if bit {
        1u8
    } else {
        0u8
    }
}

/// The state a read leaves behind: the shift position advances until it
/// runs off the end, and not at all while the strobe is high.
pub open spec fn read_next(c: Controller) -> Controller {
    if c.strobe || c.count > 8 {
        c
    } else {
        Controller { count: (c.count + 1) as u8, ..c }
    }
}

/// The state after a port write: bit 0 becomes the strobe and the shift
/// position rewinds.
pub open spec fn write_spec(c: Controller, val: u8) -> Controller {
    Controller { strobe: val & 1 > 0, count: 0, ..c }
}

/// The state reached after `n` reads.
pub open spec fn after_reads(c: Controller, n: nat) -> Controller
    decreases n,
{
    if n == 0 {
        c
    } else {
        read_next(after_reads(c, (n - 1) as nat))
    }
}

pub open spec fn button_bit(b: bool) -> u8 {
    if b {
        1u8
    } else {
        0u8
    }
}

impl Controller {
    /// The power-on latch: no button held, strobe low, position rewound.
    pub open spec fn new_spec() -> Controller {
        Controller {
            up: false,
            down: false,
            left: false,
            right: false,
            a: false,
            b: false,
            start: false,
            select: false,
            strobe: false,
            count: 0,
        }
    }

    pub fn new() -> (c: Controller)
        ensures
            c == Controller::new_spec(),
    {
        Controller {
            up: false,
            down: false,
            left: false,
            right: false,
            a: false,
            b: false,
            start: false,
            select: false,
            strobe: false,
            count: 0,
        }
    }

    /// One serial read of the port: returns the current bit and advances
    /// the shift position.
    pub fn read(&mut self) -> (r: u8)
        ensures
            r == read_value(*old(self)),
            *final(self) == read_next(*old(self)),
    {
        let res: bool = if self.strobe {
            self.a
        } else {
            if self.count <= 8 {
                self.count = self.count + 1;
            }
            match self.count {
                1u8 => self.a,
                2u8 => self.b,
                3u8 => self.select,
                4u8 => self.start,
                5u8 => self.up,
                6u8 => self.down,
                7u8 => self.left,
                8u8 => self.right,
                _ => true,
            }
        };
        if res {
            1
        } else {
            0
        }
    }

    /// A write to the strobe port.
    pub fn write(&mut self, val: u8)
        ensures
            *final(self) == write_spec(*old(self), val),
    {
        self.strobe = val & 0b0000001 > 0;
        self.count = 0;
    }
}

/// Serial order of the latch: after the strobe is raised and dropped, eight
/// consecutive reads return the buttons in the fixed order primary,
/// secondary, select, start, up, down, left, right, and every later read
/// returns 1.
pub proof fn lemma_controller_sequence(c: Controller, strobe_on: u8, strobe_off: u8)
    requires
        strobe_on & 1 == 1,
        strobe_off & 1 == 0,
    ensures
        ({
            let s = write_spec(write_spec(c, strobe_on), strobe_off);
            &&& read_value(after_reads(s, 0)) == button_bit(c.a)
            &&& read_value(after_reads(s, 1)) == button_bit(c.b)
            &&& read_value(after_reads(s, 2)) == button_bit(c.select)
            &&& read_value(after_reads(s, 3)) == button_bit(c.start)
            &&& read_value(after_reads(s, 4)) == button_bit(c.up)
            &&& read_value(after_reads(s, 5)) == button_bit(c.down)
            &&& read_value(after_reads(s, 6)) == button_bit(c.left)
            &&& read_value(after_reads(s, 7)) == button_bit(c.right)
            &&& read_value(after_reads(s, 8)) == 1
        }),
{
    let s = write_spec(write_spec(c, strobe_on), strobe_off);
    assert(!s.strobe);
    assert(after_reads(s, 0) == s);
    assert(after_reads(s, 1) == read_next(after_reads(s, 0)));
    assert(after_reads(s, 2) == read_next(after_reads(s, 1)));
    assert(after_reads(s, 3) == read_next(after_reads(s, 2)));
    assert(after_reads(s, 4) == read_next(after_reads(s, 3)));
    assert(after_reads(s, 5) == read_next(after_reads(s, 4)));
    assert(after_reads(s, 6) == read_next(after_reads(s, 5)));
    assert(after_reads(s, 7) == read_next(after_reads(s, 6)));
    assert(after_reads(s, 8) == read_next(after_reads(s, 7)));
}

} // verus!
