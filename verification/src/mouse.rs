//! PS/2 mouse driver: one-shot bring-up handshake over the command/data port
//! pair, and decoding of the 3-byte movement packets.
//!
//! The port pair is modelled as an owned value: scripted byte streams for
//! what the status and data ports will return, and a log of every byte
//! written, so the exact command sequence of the handshake is part of the
//! contract.  Every wait on the status register polls a fixed iteration
//! budget at most and then proceeds anyway rather than erroring out — a
//! documented gap of the protocol, but one that guarantees bring-up always
//! finishes even when the ready bit never shows.

use vstd::prelude::*;

verus! {

/// The keyboard/mouse data port.
pub const DATA_PORT: u16 = 0x60;

/// The shared command/status port.
pub const COMMAND_STATUS_PORT: u16 = 0x64;

/// Fixed iteration budget of one status-register poll; an approximation of
/// a timeout, not a true deadline.
pub const POLL_BUDGET: u32 = 100000;

/// Decoded state of one 3-byte mouse packet: the three button states and
/// the 9-bit signed movement deltas.
#[derive(Clone, Copy, Debug, PartialEq, Eq)]
pub struct Mouse {
    pub left_button: bool,
    pub middle_button: bool,
    pub right_button: bool,
    pub delta_x: i32,
    pub delta_y: i32,
}

/// What a poll of the status register waits for.
#[derive(Clone, Copy, Debug, PartialEq, Eq)]
pub enum MousePortStatus {
    /// Output buffer full: a data byte is ready to be read.
    Data,
    /// Input buffer empty: the controller accepts the next command byte.
    Signal,
}

/// The command/data port pair of the input controller.
///
/// The bytes the two ports will yield are scripted; once a script is
/// exhausted, the status port keeps answering busy (`0x02`) and the data
/// port zero.  Every byte written through either port is logged in order,
/// together with the port it went to.
pub struct PortPair {
    status_script: Vec<u8>,
    status_cursor: usize,
    data_script: Vec<u8>,
    data_cursor: usize,
    writes: Vec<(u16, u8)>,
}

impl PortPair {
    /// Cursors never run past their scripts.
    pub closed spec fn wf(self) -> bool {
        &&& self.status_cursor <= self.status_script@.len()
        &&& self.data_cursor <= self.data_script@.len()
    }

    /// The status bytes not yet consumed.
    pub closed spec fn status_remaining(self) -> Seq<u8> {
        self.status_script@.skip(self.status_cursor as int)
    }

    /// The data bytes not yet consumed.
    pub closed spec fn data_remaining(self) -> Seq<u8> {
        self.data_script@.skip(self.data_cursor as int)
    }

    /// Every write so far: `(port, byte)`, in order.
    pub closed spec fn writes(self) -> Seq<(u16, u8)> {
        self.writes@
    }

    /// The `i`-th future status read: the script, then busy forever.
    pub open spec fn status_at(self, i: int) -> u8 {
        if 0 <= i < self.status_remaining().len() {
            self.status_remaining()[i]
        } else {
            0x02
        }
    }

    /// The `i`-th future data read: the script, then zero forever.
    pub open spec fn data_at(self, i: int) -> u8 {
        if 0 <= i < self.data_remaining().len() {
            self.data_remaining()[i]
        } else {
            0x00
        }
    }

    /// Every write so far: `(port, byte)`, in order.
    pub fn write_log(&self) -> (r: &Vec<(u16, u8)>)
        ensures
            r@ == self.writes(),
    {
        &self.writes
    }

    /// A port pair that will answer with the given scripts and has written
    /// nothing yet.
    pub fn new(status_script: Vec<u8>, data_script: Vec<u8>) -> (p: PortPair)
        ensures
            p.wf(),
            p.status_remaining() == status_script@,
            p.data_remaining() == data_script@,
            p.writes() == Seq::<(u16, u8)>::empty(),
    {
        let p = PortPair {
            status_script,
            status_cursor: 0,
            data_script,
            data_cursor: 0,
            writes: Vec::new(),
        };
        proof {
            assert(p.status_remaining() =~= p.status_script@);
            assert(p.data_remaining() =~= p.data_script@);
        }
        p
    }

    /// Read the status register once.
    pub fn read_status(&mut self) -> (r: u8)
        requires
            old(self).wf(),
        ensures
            final(self).wf(),
            r == old(self).status_at(0),
            forall|i: int| 0 <= i ==> final(self).status_at(i) == old(self).status_at(i + 1),
            final(self).data_remaining() == old(self).data_remaining(),
            final(self).writes() == old(self).writes(),
    {
        if self.status_cursor < self.status_script.len() {
            let b = self.status_script[self.status_cursor];
            self.status_cursor = self.status_cursor + 1;
            proof {
                assert forall|i: int| 0 <= i implies self.status_at(i) == old(self).status_at(
                    i + 1,
                ) by {
                    assert(self.status_remaining() =~= old(self).status_remaining().skip(1));
                }
            }
            b
        } else {
            0x02
        }
    }

    /// Read the data port once.
    pub fn read_data(&mut self) -> (r: u8)
        requires
            old(self).wf(),
        ensures
            final(self).wf(),
            r == old(self).data_at(0),
            forall|i: int| 0 <= i ==> final(self).data_at(i) == old(self).data_at(i + 1),
            final(self).status_remaining() == old(self).status_remaining(),
            final(self).writes() == old(self).writes(),
    {
        if self.data_cursor < self.data_script.len() {
            let b = self.data_script[self.data_cursor];
            self.data_cursor = self.data_cursor + 1;
            proof {
                assert forall|i: int| 0 <= i implies self.data_at(i) == old(self).data_at(
                    i + 1,
                ) by {
                    assert(self.data_remaining() =~= old(self).data_remaining().skip(1));
                }
            }
            b
        } else {
            0x00
        }
    }

    /// Write one byte to the command/status port.
    pub fn write_command(&mut self, value: u8)
        requires
            old(self).wf(),
        ensures
            final(self).wf(),
            final(self).writes() == old(self).writes().push((COMMAND_STATUS_PORT, value)),
            final(self).status_remaining() == old(self).status_remaining(),
            final(self).data_remaining() == old(self).data_remaining(),
    {
        self.writes.push((COMMAND_STATUS_PORT, value));
    }

    /// Write one byte to the data port.
    pub fn write_data(&mut self, value: u8)
        requires
            old(self).wf(),
        ensures
            final(self).wf(),
            final(self).writes() == old(self).writes().push((DATA_PORT, value)),
            final(self).status_remaining() == old(self).status_remaining(),
            final(self).data_remaining() == old(self).data_remaining(),
    {
        self.writes.push((DATA_PORT, value));
    }
}

/// Whether a status-register value satisfies the given wait.
pub open spec fn ready_for(status: MousePortStatus, value: u8) -> bool {
    match status {
        MousePortStatus::Data => value & 1 == 1,
        MousePortStatus::Signal => value & 2 == 0,
    }
}

/// Whether `value` satisfies the wait `status`.
fn is_ready_value(status: MousePortStatus, value: u8) -> (r: bool)
    ensures
        r == ready_for(status, value),
{
    match status {
        MousePortStatus::Data => value & 1 == 1,
        MousePortStatus::Signal => value & 2 == 0,
    }
}

/// Poll the status register until it satisfies the wait, but at most
/// `POLL_BUDGET` times; on exhaustion proceed anyway.  Returns the number of
/// polls performed: either the first ready poll, or the whole budget with no
/// poll ready.  Never waits longer than the budget, even when the ready bit
/// never shows.
pub fn mouse_wait_for_status(port: &mut PortPair, status: MousePortStatus) -> (polls: u32)
    requires
        old(port).wf(),
    ensures
        final(port).wf(),
        1 <= polls <= POLL_BUDGET,
        (ready_for(status, old(port).status_at(polls - 1)) && forall|i: int|
            0 <= i < polls - 1 ==> !ready_for(status, old(port).status_at(i))) || (polls
            == POLL_BUDGET && forall|i: int|
            0 <= i < POLL_BUDGET ==> !ready_for(status, old(port).status_at(i))),
        forall|i: int| 0 <= i ==> final(port).status_at(i) == old(port).status_at(i + polls),
        final(port).data_remaining() == old(port).data_remaining(),
        final(port).writes() == old(port).writes(),
{
    let mut polls: u32 = 0;
    while polls < POLL_BUDGET
        invariant
            port.wf(),
            polls <= POLL_BUDGET,
            forall|i: int| 0 <= i < polls ==> !ready_for(status, old(port).status_at(i)),
            forall|i: int| 0 <= i ==> port.status_at(i) == old(port).status_at(i + polls),
            port.data_remaining() == old(port).data_remaining(),
            port.writes() == old(port).writes(),
        decreases POLL_BUDGET - polls,
    {
        let value = port.read_status();
        polls = polls + 1;
        if is_ready_value(status, value) {
            return polls;
        }
    }
    polls
}

/// Send one mouse-directed command byte: wait until the controller accepts
/// a command, announce the mouse-directed byte, wait again, then write the
/// byte itself on the data port.
pub fn mouse_write(port: &mut PortPair, data: u8)
    requires
        old(port).wf(),
    ensures
        final(port).wf(),
        final(port).writes() == old(port).writes() + seq![
            (COMMAND_STATUS_PORT, 0xd4u8),
            (DATA_PORT, data),
        ],
        final(port).data_remaining() == old(port).data_remaining(),
{
    mouse_wait_for_status(port, MousePortStatus::Signal);
    port.write_command(0xd4);
    mouse_wait_for_status(port, MousePortStatus::Signal);
    port.write_data(data);
    proof {
        assert(port.writes() =~= old(port).writes() + seq![
            (COMMAND_STATUS_PORT, 0xd4u8),
            (DATA_PORT, data),
        ]);
    }
}

/// Read one byte from the mouse: wait (boundedly) for data to be ready,
/// then read the data port unconditionally.
pub fn mouse_read(port: &mut PortPair) -> (r: u8)
    requires
        old(port).wf(),
    ensures
        final(port).wf(),
        r == old(port).data_at(0),
        forall|i: int| 0 <= i ==> final(port).data_at(i) == old(port).data_at(i + 1),
        final(port).writes() == old(port).writes(),
{
    mouse_wait_for_status(port, MousePortStatus::Data);
    port.read_data()
}

/// One-shot mouse bring-up: enable the auxiliary device, enable its
/// interrupt line by a read-modify-write of the controller status byte,
/// then restore defaults and enable streaming, discarding the one-byte
/// acknowledgment after each device command.
///
/// Runs to completion within the fixed polling budgets even if the
/// controller never reports ready.  The exact command sequence written, and
/// the three data bytes consumed, are pinned by the contract.
pub fn init_mouse(port: &mut PortPair)
    requires
        old(port).wf(),
    ensures
        final(port).wf(),
        final(port).writes() == old(port).writes() + seq![
            (COMMAND_STATUS_PORT, 0xa8u8),
            (COMMAND_STATUS_PORT, 0x20u8),
            (COMMAND_STATUS_PORT, 0x60u8),
            (DATA_PORT, old(port).data_at(0) | 2),
            (COMMAND_STATUS_PORT, 0xd4u8),
            (DATA_PORT, 0xf6u8),
            (COMMAND_STATUS_PORT, 0xd4u8),
            (DATA_PORT, 0xf4u8),
        ],
        forall|i: int| 0 <= i ==> final(port).data_at(i) == old(port).data_at(i + 3),
{
    // enable the auxiliary mouse device
    mouse_wait_for_status(port, MousePortStatus::Signal);
    port.write_command(0xa8);

    // enable the interrupts: read the status byte, set its mouse-interrupt
    // bit, write it back
    mouse_wait_for_status(port, MousePortStatus::Signal);
    port.write_command(0x20);
    mouse_wait_for_status(port, MousePortStatus::Data);
    let mouse_status: u8 = port.read_data() | 2;
    let ghost q1 = *port;
    mouse_wait_for_status(port, MousePortStatus::Signal);
    port.write_command(0x60);
    mouse_wait_for_status(port, MousePortStatus::Signal);
    port.write_data(mouse_status);

    // tell the mouse to use default settings
    mouse_write(port, 0xf6);
    let _ = mouse_read(port);  // acknowledge
    let ghost q2 = *port;

    // enable the mouse
    mouse_write(port, 0xf4);
    let _ = mouse_read(port);  // acknowledge

    proof {
        assert(port.writes() =~= old(port).writes() + seq![
            (COMMAND_STATUS_PORT, 0xa8u8),
            (COMMAND_STATUS_PORT, 0x20u8),
            (COMMAND_STATUS_PORT, 0x60u8),
            (DATA_PORT, old(port).data_at(0) | 2),
            (COMMAND_STATUS_PORT, 0xd4u8),
            (DATA_PORT, 0xf6u8),
            (COMMAND_STATUS_PORT, 0xd4u8),
            (DATA_PORT, 0xf4u8),
        ]);
        assert forall|i: int| 0 <= i implies port.data_at(i) == old(port).data_at(i + 3) by {
            assert(port.data_at(i) == q2.data_at(i + 1));
            assert(q2.data_at(i + 1) == q1.data_at(i + 2));
            assert(q1.data_at(i + 2) == old(port).data_at(i + 3));
        }
    }
}

/// The meaning of one 3-byte packet on the wire: byte 0 carries the three
/// button bits and the two delta sign bits, bytes 1 and 2 are the low eight
/// bits of the x and y deltas.
pub open spec fn spec_decode_packet(b0: u8, b1: u8, b2: u8) -> Mouse {
    Mouse {
        left_button: b0 & 0x01 != 0,
        right_button: b0 & 0x02 != 0,
        middle_button: b0 & 0x04 != 0,
        delta_x: (b1 as int - (if b0 & 0x10 != 0 {
            256int
        } else {
            0int
        })) as i32,
        delta_y: (b2 as int - (if b0 & 0x20 != 0 {
            256int
        } else {
            0int
        })) as i32,
    }
}

/// Decode one 3-byte mouse packet: the low three bits of byte 0 are the
/// button states, and bytes 1 and 2 become 9-bit signed deltas whose sign
/// bits sit in byte 0.
pub fn decode_packet(packet: [u8; 3]) -> (m: Mouse)
    ensures
        m == spec_decode_packet(packet@[0], packet@[1], packet@[2]),
{
    let b0 = packet[0];
    let b1 = packet[1];
    let b2 = packet[2];
    let delta_x: i32 = b1 as i32 - (if b0 & 0x10 != 0 {
        256
    } else {
        0
    });
    let delta_y: i32 = b2 as i32 - (if b0 & 0x20 != 0 {
        256
    } else {
        0
    });
    Mouse {
        left_button: b0 & 0x01 != 0,
        right_button: b0 & 0x02 != 0,
        middle_button: b0 & 0x04 != 0,
        delta_x,
        delta_y,
    }
}

/// Read one whole movement packet from the data port and decode it.
pub fn read_packet(port: &mut PortPair) -> (m: Mouse)
    requires
        old(port).wf(),
    ensures
        final(port).wf(),
        m == spec_decode_packet(
            old(port).data_at(0),
            old(port).data_at(1),
            old(port).data_at(2),
        ),
        forall|i: int| 0 <= i ==> final(port).data_at(i) == old(port).data_at(i + 3),
        final(port).writes() == old(port).writes(),
{
    let b0 = mouse_read(port);
    let b1 = mouse_read(port);
    let b2 = mouse_read(port);
    decode_packet([b0, b1, b2])
}

} // verus!
