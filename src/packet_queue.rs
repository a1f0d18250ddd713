use crate::frame::Packet;
use crate::queue::{Queue, HIGH, LOW, XOFF, XON};
use heapless::spsc::Queue as Ring;
use vstd::prelude::*;

verus! {

/// Size of the ring behind a frame queue; it holds one frame less.
pub const PACKET_QUEUE_SIZE: usize = 8;

/// Frames a frame queue can hold.
pub const PACKET_CAPACITY: usize = 7;

/// The frames held by a ring, front first.
pub uninterp spec fn ring_packets(q: Ring<Packet, PACKET_QUEUE_SIZE>) -> Seq<Packet>;

/// Relies on heapless::spsc::Queue::new: a new queue holds nothing.
#[verifier::external_body]
fn packet_ring_new() -> (r: Ring<Packet, PACKET_QUEUE_SIZE>)
    ensures
        ring_packets(r) == Seq::<Packet>::empty(),
{
    Ring::new()
}

/// Relies on heapless::spsc::Queue::enqueue: while fewer than `N - 1` frames
/// are held the frame goes to the back, else it is handed back and nothing
/// changes.
#[verifier::external_body]
fn packet_ring_enqueue(q: &mut Ring<Packet, PACKET_QUEUE_SIZE>, p: Packet) -> (r: Result<(), Packet>)
    ensures
        ring_packets(*old(q)).len() < PACKET_CAPACITY ==> r is Ok && ring_packets(*final(q))
            == ring_packets(*old(q)).push(p),
        ring_packets(*old(q)).len() >= PACKET_CAPACITY ==> r is Err && ring_packets(*final(q))
            == ring_packets(*old(q)),
    no_unwind
{
    q.enqueue(p)
}

/// Relies on heapless::spsc::Queue::dequeue: takes the front frame, or gives
/// `None` when the queue is empty.
#[verifier::external_body]
fn packet_ring_dequeue(q: &mut Ring<Packet, PACKET_QUEUE_SIZE>) -> (r: Option<Packet>)
    ensures
        ring_packets(*old(q)).len() == 0 ==> r is None && ring_packets(*final(q))
            == ring_packets(*old(q)),
        ring_packets(*old(q)).len() > 0 ==> r == Some(ring_packets(*old(q))[0]) && ring_packets(
            *final(q),
        ) == ring_packets(*old(q)).drop_first(),
    no_unwind
{
    q.dequeue()
}

/// Relies on heapless::spsc::Queue::len: the number of frames held.
#[verifier::external_body]
fn packet_ring_len(q: &Ring<Packet, PACKET_QUEUE_SIZE>) -> (r: usize)
    ensures
        r == ring_packets(*q).len(),
{
    q.len()
}

/// A bounded FIFO of well-formed frames.
pub struct PacketQueue {
    ring: Ring<Packet, PACKET_QUEUE_SIZE>,
}

impl PacketQueue {
    #[verifier::type_invariant]
    spec fn inv(self) -> bool {
        &&& ring_packets(self.ring).len() <= PACKET_CAPACITY
        &&& forall|i: int| 0 <= i < ring_packets(self.ring).len() ==> #[trigger] ring_packets(
            self.ring,
        )[i].wf()
    }

    /// The frames held, front first.
    pub closed spec fn view(&self) -> Seq<Packet> {
        ring_packets(self.ring)
    }

    pub fn new() -> (r: Self)
        ensures
            r@ == Seq::<Packet>::empty(),
    {
        PacketQueue { ring: packet_ring_new() }
    }

    /// Appends a frame; a full queue hands it back unchanged.
    pub fn enqueue(&mut self, p: Packet) -> (r: Result<(), Packet>)
        requires
            p.wf(),
        ensures
            r is Ok <==> old(self)@.len() < PACKET_CAPACITY,
            final(self)@ == (if r is Ok { old(self)@.push(p) } else { old(self)@ }),
            r matches Err(q) ==> q == p,
    {
        proof {
            use_type_invariant(&*self);
        }
        match packet_ring_enqueue(&mut self.ring, p) {
            Ok(()) => Ok(()),
            Err(_) => Err(p),
        }
    }

    /// Takes the front frame, if any.
    pub fn dequeue(&mut self) -> (r: Option<Packet>)
        ensures
            old(self)@.len() == 0 ==> r is None && final(self)@ == old(self)@,
            old(self)@.len() > 0 ==> r == Some(old(self)@[0]) && final(self)@ == old(
                self,
            )@.drop_first(),
            r matches Some(p) ==> p.wf(),
    {
        proof {
            use_type_invariant(&*self);
        }
        packet_ring_dequeue(&mut self.ring)
    }

    pub fn len(&self) -> (r: usize)
        ensures
            r == self@.len(),
            r <= PACKET_CAPACITY,
    {
        proof {
            use_type_invariant(self);
        }
        packet_ring_len(&self.ring)
    }

    pub fn is_empty(&self) -> (r: bool)
        ensures
            r == (self@.len() == 0),
    {
        self.len() == 0
    }

    pub fn is_full(&self) -> (r: bool)
        ensures
            r == (self@.len() >= PACKET_CAPACITY),
    {
        self.len() >= PACKET_CAPACITY
    }
}

/// The four queues between the peripherals and the protocol engine.
pub struct Queues {
    /// Bytes waiting to go out of the local UART.
    pub uart_tx: Queue,
    /// Bytes received from the local UART, waiting to go over the radio.
    pub uart_rx: Queue,
    /// Frames waiting for the radio.
    pub radio_tx: PacketQueue,
    /// Frames received by the radio, waiting for the engine.
    pub radio_rx: PacketQueue,
}

impl Queues {
    pub fn new() -> (r: Self)
        ensures
            r.uart_tx@ == Seq::<u8>::empty(),
            !r.uart_tx.xoff_requested(),
            r.uart_rx@ == Seq::<u8>::empty(),
            !r.uart_rx.xoff_requested(),
            r.radio_tx@ == Seq::<Packet>::empty(),
            r.radio_rx@ == Seq::<Packet>::empty(),
    {
        Queues {
            uart_tx: Queue::new(),
            uart_rx: Queue::new(),
            radio_tx: PacketQueue::new(),
            radio_rx: PacketQueue::new(),
        }
    }

    /// Runs the flow-control checks of both UART queues: a filling receive
    /// queue asks the local host to pause, and a filling transmit queue asks
    /// the remote host to pause, through the bytes sent over the radio.
    pub fn regulate(&mut self)
        ensures
            final(self).radio_tx@ == old(self).radio_tx@,
            final(self).radio_rx@ == old(self).radio_rx@,
            final(self).uart_rx.data() == old(self).uart_rx.data(),
            final(self).uart_tx.data() == old(self).uart_tx.data(),
            ({
                let rx_n = old(self).uart_rx.data().len();
                let rx_off = old(self).uart_rx.xoff_requested();
                let to_host = if rx_n > HIGH && !rx_off {
                    Some(XOFF)
                } else if rx_off && rx_n < LOW {
                    Some(XON)
                } else {
                    None
                };
                &&& final(self).uart_rx.xoff_requested() == (if to_host == Some(XOFF) {
                    true
                } else if to_host == Some(XON) {
                    false
                } else {
                    rx_off
                })
                &&& final(self).uart_tx.control() == (if to_host is Some {
                    to_host
                } else {
                    old(self).uart_tx.control()
                })
            }),
            ({
                let tx_n = old(self).uart_tx.data().len();
                let tx_off = old(self).uart_tx.xoff_requested();
                let to_peer = if tx_n > HIGH && !tx_off {
                    Some(XOFF)
                } else if tx_off && tx_n < LOW {
                    Some(XON)
                } else {
                    None
                };
                &&& final(self).uart_tx.xoff_requested() == (if to_peer == Some(XOFF) {
                    true
                } else if to_peer == Some(XON) {
                    false
                } else {
                    tx_off
                })
                &&& final(self).uart_rx.control() == (if to_peer is Some {
                    to_peer
                } else {
                    old(self).uart_rx.control()
                })
            }),
    {
        self.uart_rx.flow_control(&mut self.uart_tx);
        self.uart_tx.flow_control(&mut self.uart_rx);
    }
}

} // verus!
