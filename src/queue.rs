use heapless::spsc::Queue as Ring;
use vstd::prelude::*;

verus! {

/// Resume-transmission control byte.
pub const XON: u8 = 0x11;

/// Stop-transmission control byte.
pub const XOFF: u8 = 0x13;

/// Size of the ring behind a byte queue; it holds one byte less, and the
/// control slot makes up the difference.
pub const QUEUE_SIZE: usize = 1024;

/// Data bytes a queue can hold besides a pending control byte.
pub const DATA_CAPACITY: usize = 1023;

/// Above this many bytes a queue asks its sender to stop.
pub const HIGH: usize = 512;

/// Below this many bytes a queue that asked its sender to stop lets it resume.
pub const LOW: usize = 256;

/// heapless's single-producer single-consumer ring, opaque to proofs; what a
/// ring holds is named by `ring_bytes` and `ring_packets`.
#[verifier::external_type_specification]
#[verifier::external_body]
#[verifier::reject_recursive_types(T)]
pub struct ExRing<T, const N: usize>(Ring<T, N>);

/// The bytes held by a ring, front first.
pub uninterp spec fn ring_bytes(q: Ring<u8, QUEUE_SIZE>) -> Seq<u8>;

/// Relies on heapless::spsc::Queue::new: a new queue holds nothing.
#[verifier::external_body]
fn ring_new() -> (r: Ring<u8, QUEUE_SIZE>)
    ensures
        ring_bytes(r) == Seq::<u8>::empty(),
{
    Ring::new()
}

/// Relies on heapless::spsc::Queue::enqueue: while fewer than `N - 1` bytes
/// are held the byte goes to the back, else it is handed back and nothing
/// changes.
#[verifier::external_body]
fn ring_enqueue(q: &mut Ring<u8, QUEUE_SIZE>, b: u8) -> (r: Result<(), u8>)
    ensures
        ring_bytes(*old(q)).len() < DATA_CAPACITY ==> r is Ok && ring_bytes(*final(q))
            == ring_bytes(*old(q)).push(b),
        ring_bytes(*old(q)).len() >= DATA_CAPACITY ==> (r matches Err(e) && e == b) && ring_bytes(
            *final(q),
        ) == ring_bytes(*old(q)),
    no_unwind
{
    q.enqueue(b)
}

/// Relies on heapless::spsc::Queue::dequeue: takes the front byte, or gives
/// `None` when the queue is empty.
#[verifier::external_body]
fn ring_dequeue(q: &mut Ring<u8, QUEUE_SIZE>) -> (r: Option<u8>)
    ensures
        ring_bytes(*old(q)).len() == 0 ==> r is None && ring_bytes(*final(q)) == ring_bytes(
            *old(q),
        ),
        ring_bytes(*old(q)).len() > 0 ==> r == Some(ring_bytes(*old(q))[0]) && ring_bytes(
            *final(q),
        ) == ring_bytes(*old(q)).drop_first(),
    no_unwind
{
    q.dequeue()
}

/// Relies on heapless::spsc::Queue::len: the number of bytes held.
#[verifier::external_body]
fn ring_len(q: &Ring<u8, QUEUE_SIZE>) -> (r: usize)
    ensures
        r == ring_bytes(*q).len(),
{
    q.len()
}

/// The bytes of an optional control byte, as a sequence.
pub open spec fn control_seq(c: Option<u8>) -> Seq<u8> {
    match c {
        Some(b) => seq![b],
        None => Seq::empty(),
    }
}

/// A bounded byte queue with a one-byte control slot at its head.
///
/// Its content is the pending control byte, if any, followed by the data
/// bytes in arrival order.
pub struct Queue {
    queue: Ring<u8, QUEUE_SIZE>,
    /// Flow control requested from the outside.
    control: Option<u8>,
    /// Have we requested XOFF?
    xoff_on: bool,
}

impl Queue {
    #[verifier::type_invariant]
    spec fn inv(self) -> bool {
        ring_bytes(self.queue).len() <= DATA_CAPACITY
    }

    /// The data bytes, front first.
    pub closed spec fn data(&self) -> Seq<u8> {
        ring_bytes(self.queue)
    }

    /// The pending control byte.
    pub closed spec fn control(&self) -> Option<u8> {
        self.control
    }

    /// Has this queue asked its sender to stop?
    pub closed spec fn xoff_requested(&self) -> bool {
        self.xoff_on
    }

    /// Everything the queue will hand out, in order.
    pub open spec fn view(&self) -> Seq<u8> {
        control_seq(self.control()) + self.data()
    }

    /// Is there room for one more data byte?
    pub open spec fn has_room(&self) -> bool {
        self.data().len() < DATA_CAPACITY
    }

    pub fn new() -> (r: Self)
        ensures
            r@ == Seq::<u8>::empty(),
            r.data() == Seq::<u8>::empty(),
            r.control() is None,
            !r.xoff_requested(),
    {
        Queue { queue: ring_new(), control: None, xoff_on: false }
    }

    /// Appends a data byte; a full queue hands the byte back unchanged.
    pub fn enqueue(&mut self, byte: u8) -> (r: Result<(), u8>)
        ensures
            r is Ok <==> old(self).has_room(),
            r is Ok ==> final(self).data() == old(self).data().push(byte),
            r is Err ==> (r matches Err(e) && e == byte) && final(self).data() == old(self).data(),
            final(self)@ == (if r is Ok { old(self)@.push(byte) } else { old(self)@ }),
            final(self).control() == old(self).control(),
            final(self).xoff_requested() == old(self).xoff_requested(),
    {
        proof {
            use_type_invariant(&*self);
        }
        let r = ring_enqueue(&mut self.queue, byte);
        proof {
            assert(control_seq(self.control) + ring_bytes(self.queue) =~= if r is Ok {
                control_seq(old(self).control) + ring_bytes(old(self).queue).push(byte)
            } else {
                control_seq(old(self).control) + ring_bytes(old(self).queue)
            });
        }
        r
    }

    /// Takes the pending control byte if there is one, else the front data
    /// byte.
    pub fn dequeue(&mut self) -> (r: Option<u8>)
        ensures
            old(self)@.len() == 0 ==> r is None && final(self)@ == old(self)@,
            old(self)@.len() > 0 ==> r == Some(old(self)@[0]) && final(self)@ == old(
                self,
            )@.drop_first(),
            final(self).control() is None,
            old(self).control() is None ==> final(self).data() == old(self).data().skip(
                if r is Some { 1 } else { 0 },
            ),
            old(self).control() is Some ==> final(self).data() == old(self).data(),
            final(self).xoff_requested() == old(self).xoff_requested(),
    {
        proof {
            use_type_invariant(&*self);
        }
        match self.control {
            Some(c) => {
                self.control = None;
                proof {
                    assert(self@ =~= old(self)@.drop_first());
                }
                Some(c)
            },
            None => {
                let r = ring_dequeue(&mut self.queue);
                proof {
                    assert(self@ =~= ring_bytes(self.queue));
                    assert(old(self)@ =~= ring_bytes(old(self).queue));
                    assert(ring_bytes(self.queue) =~= ring_bytes(old(self).queue).skip(
                        if r is Some { 1 } else { 0 },
                    ));
                }
                r
            },
        }
    }

    /// The number of bytes the queue will hand out.
    pub fn len(&self) -> (r: usize)
        ensures
            r == self@.len(),
    {
        proof {
            use_type_invariant(self);
        }
        (match self.control {
            Some(_) => 1,
            None => 0,
        }) + ring_len(&self.queue)
    }

    pub fn is_empty(&self) -> (r: bool)
        ensures
            r == (self@.len() == 0),
    {
        self.len() == 0
    }

    /// Asks the sender for flow control, through the control slot of
    /// `target`: XOFF once this queue holds more than `HIGH` data bytes, XON
    /// once it has drained below `LOW` after that.
    pub fn flow_control(&mut self, target: &mut Queue)
        ensures
            final(self).data() == old(self).data(),
            final(self).control() == old(self).control(),
            final(target).data() == old(target).data(),
            final(target).xoff_requested() == old(target).xoff_requested(),
            ({
                let n = old(self).data().len();
                if n > HIGH && !old(self).xoff_requested() {
                    final(self).xoff_requested() && final(target).control() == Some(XOFF)
                } else if old(self).xoff_requested() && n < LOW {
                    !final(self).xoff_requested() && final(target).control() == Some(XON)
                } else {
                    final(self).xoff_requested() == old(self).xoff_requested()
                        && final(target).control() == old(target).control()
                }
            }),
    {
        proof {
            use_type_invariant(&*self);
            use_type_invariant(&*target);
        }
        let n = ring_len(&self.queue);
        if n > HIGH && !self.xoff_on {
            self.xoff_on = true;
            target.control = Some(XOFF);
        } else if self.xoff_on && n < LOW {
            self.xoff_on = false;
            target.control = Some(XON);
        }
    }
}

} // verus!
