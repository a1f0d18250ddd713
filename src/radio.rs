use crate::frame::{frame_bytes, parse_frame, Packet, PacketBuffer, MAX_PACKET_SIZE};
use crate::packet_queue::{PacketQueue, PACKET_CAPACITY};
use vstd::prelude::*;

verus! {

/// The half-duplex radio's mode, as the driver tracks it.
#[derive(Clone, Copy, Debug, PartialEq, Eq, Structural)]
pub enum Mode {
    /// Listening, no frame under way.
    Idle,
    /// A frame is arriving.
    Rx,
    /// Leaving receive mode, then sending a frame.
    Tx,
    /// A frame was sent; leaving transmit mode.
    TxDisable,
}

/// The events the radio peripheral has latched when its interrupt runs, and
/// the CRC status of the frame in the buffer.
#[derive(Clone, Copy, Debug, PartialEq, Eq, Structural)]
pub struct RadioEvents {
    pub ready: bool,
    pub address: bool,
    pub end: bool,
    pub disabled: bool,
    pub crc_ok: bool,
}

/// What the driver does to the peripheral after a step, in this order:
/// clear the latched events named, point the radio at the buffer and start
/// it, then run the tasks named.
#[derive(Clone, Copy, Debug, PartialEq, Eq, Structural)]
pub struct RadioCommands {
    pub clear_ready: bool,
    pub clear_address: bool,
    pub clear_end: bool,
    pub clear_disabled: bool,
    /// Set the buffer pointer and start the radio (it has become ready).
    pub start_ready: bool,
    /// Leave the current mode.
    pub disable: bool,
    /// Enter transmit mode.
    pub enable_tx: bool,
    /// Enter receive mode.
    pub enable_rx: bool,
    /// Start receiving the next frame.
    pub restart: bool,
    /// A frame with a good CRC arrived, so the engine has work.
    pub received: bool,
}

/// No commands, except the start that a ready event asks for.
pub open spec fn commands_on_ready(ready: bool) -> RadioCommands {
    RadioCommands {
        clear_ready: ready,
        clear_address: false,
        clear_end: false,
        clear_disabled: false,
        start_ready: ready,
        disable: false,
        enable_tx: false,
        enable_rx: false,
        restart: false,
        received: false,
    }
}

/// `after` is the frame queue `before` with the frame decoded from `buf`
/// added, when the CRC was good, the frame decodes and there is room.
pub open spec fn received_into(before: Seq<Packet>, after: Seq<Packet>, buf: Seq<u8>, crc_ok: bool) -> bool {
    if crc_ok && parse_frame(buf) is Some && before.len() < PACKET_CAPACITY {
        &&& after.len() == before.len() + 1
        &&& after.drop_last() == before
        &&& Some(after.last()@) == parse_frame(buf)
    } else {
        after == before
    }
}

/// The driver's state: its mode and the buffer the radio sends from and
/// receives into.
pub struct RadioLink {
    pub mode: Mode,
    pub packet: PacketBuffer,
}

impl RadioLink {
    pub fn new() -> (r: Self)
        ensures
            r.mode == Mode::Idle,
            r.packet@ == Seq::new(MAX_PACKET_SIZE as nat, |i: int| 0u8),
    {
        let r = RadioLink { mode: Mode::Idle, packet: [0u8; MAX_PACKET_SIZE] };
        assert(r.packet@ =~= Seq::new(MAX_PACKET_SIZE as nat, |i: int| 0u8));
        r
    }

    /// One run of the radio interrupt. In `Idle` an arriving frame takes
    /// precedence over sending; a frame to send is written to the buffer and
    /// the radio leaves receive mode. A frame that arrived with a good CRC is
    /// decoded into `radio_rx`; a malformed one, or one for which there is no
    /// room, is dropped.
    pub fn handle_interrupt(
        &mut self,
        ev: RadioEvents,
        radio_tx: &mut PacketQueue,
        radio_rx: &mut PacketQueue,
    ) -> (r: RadioCommands)
        ensures
            ({
                let base = commands_on_ready(ev.ready);
                let m = old(self).mode;
                let quiet = final(self).mode == m && final(self).packet == old(self).packet
                    && final(radio_tx)@ == old(radio_tx)@ && final(radio_rx)@ == old(radio_rx)@;
                if m == Mode::Idle && ev.address {
                    &&& r == (RadioCommands { clear_address: true, ..base })
                    &&& final(self).mode == Mode::Rx
                    &&& final(self).packet == old(self).packet
                    &&& final(radio_tx)@ == old(radio_tx)@
                    &&& final(radio_rx)@ == old(radio_rx)@
                } else if m == Mode::Idle && old(radio_tx)@.len() > 0 {
                    let f = frame_bytes(old(radio_tx)@[0]@);
                    &&& r == (RadioCommands { disable: true, ..base })
                    &&& final(self).mode == Mode::Tx
                    &&& final(self).packet@ == f + old(self).packet@.subrange(
                        f.len() as int,
                        MAX_PACKET_SIZE as int,
                    )
                    &&& final(radio_tx)@ == old(radio_tx)@.drop_first()
                    &&& final(radio_rx)@ == old(radio_rx)@
                } else if m == Mode::Rx && ev.end {
                    &&& r == (RadioCommands {
                        clear_end: true,
                        restart: true,
                        received: ev.crc_ok,
                        ..base
                    })
                    &&& final(self).mode == Mode::Idle
                    &&& final(self).packet == old(self).packet
                    &&& final(radio_tx)@ == old(radio_tx)@
                    &&& received_into(
                        old(radio_rx)@,
                        final(radio_rx)@,
                        old(self).packet@,
                        ev.crc_ok,
                    )
                } else if m == Mode::Tx && ev.disabled {
                    &&& r == (RadioCommands { clear_disabled: true, enable_tx: true, ..base })
                    &&& quiet
                } else if m == Mode::Tx && ev.end {
                    &&& r == (RadioCommands {
                        clear_address: true,
                        clear_end: true,
                        disable: true,
                        ..base
                    })
                    &&& final(self).mode == Mode::TxDisable
                    &&& final(self).packet == old(self).packet
                    &&& final(radio_tx)@ == old(radio_tx)@
                    &&& final(radio_rx)@ == old(radio_rx)@
                } else if m == Mode::TxDisable && ev.disabled {
                    &&& r == (RadioCommands { clear_disabled: true, enable_rx: true, ..base })
                    &&& final(self).mode == Mode::Idle
                    &&& final(self).packet == old(self).packet
                    &&& final(radio_tx)@ == old(radio_tx)@
                    &&& final(radio_rx)@ == old(radio_rx)@
                } else {
                    r == base && quiet
                }
            }),
    {
        let base = RadioCommands {
            clear_ready: ev.ready,
            clear_address: false,
            clear_end: false,
            clear_disabled: false,
            start_ready: ev.ready,
            disable: false,
            enable_tx: false,
            enable_rx: false,
            restart: false,
            received: false,
        };
        match self.mode {
            Mode::Idle => {
                if ev.address {
                    self.mode = Mode::Rx;
                    RadioCommands { clear_address: true, ..base }
                } else {
                    match radio_tx.dequeue() {
                        Some(packet) => {
                            packet.write(&mut self.packet);
                            self.mode = Mode::Tx;
                            RadioCommands { disable: true, ..base }
                        },
                        None => base,
                    }
                }
            },
            Mode::Rx => {
                if ev.end {
                    if ev.crc_ok {
                        if let Some(packet) = Packet::read(&self.packet) {
                            let _ = radio_rx.enqueue(packet);
                            proof {
                                if old(radio_rx)@.len() < PACKET_CAPACITY {
                                    assert(radio_rx@.drop_last() =~= old(radio_rx)@);
                                }
                            }
                        }
                    }
                    self.mode = Mode::Idle;
                    RadioCommands { clear_end: true, restart: true, received: ev.crc_ok, ..base }
                } else {
                    base
                }
            },
            Mode::Tx => {
                if ev.disabled {
                    RadioCommands { clear_disabled: true, enable_tx: true, ..base }
                } else if ev.end {
                    self.mode = Mode::TxDisable;
                    RadioCommands { clear_address: true, clear_end: true, disable: true, ..base }
                } else {
                    base
                }
            },
            Mode::TxDisable => {
                if ev.disabled {
                    self.mode = Mode::Idle;
                    RadioCommands { clear_disabled: true, enable_rx: true, ..base }
                } else {
                    base
                }
            },
        }
    }
}

} // verus!
