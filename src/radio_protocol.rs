use crate::frame::{Frame, Packet, PacketData, MAX_DATA_SIZE};
use crate::packet_queue::{PacketQueue, Queues, PACKET_CAPACITY};
use crate::pend::Pend;
use crate::queue::{Queue, DATA_CAPACITY};
use vstd::prelude::*;

verus! {

/// Shortest time, in ticks, before an unacknowledged frame is sent again.
pub const RETRY_BASE: u32 = 2;

/// Transmissions of one frame after which the engine gives up on it.
pub const RETRY_CAP: u32 = 16;

/// The receiving side: what the engine owes the peer for its last frame.
#[derive(Clone, Copy, Debug, PartialEq, Eq, Structural)]
pub enum RxState {
    /// No DATA received yet.
    Initial,
    /// DATA with this id was received and must be acknowledged.
    NeedsAck(u8),
    /// DATA with this id was the last one received, and has been acknowledged.
    Acked(u8),
}

/// The sending side: the one frame, if any, that waits for its acknowledgement.
#[derive(Clone, Copy, Debug)]
pub enum TxState {
    Idle,
    Sent { packet_data: PacketData, tx_count: u32, since: u32 },
}

/// The content of a `TxState`.
pub enum TxView {
    Idle,
    Sent { id: u8, payload: Seq<u8>, tx_count: u32, since: u32 },
}

/// The content of the engine's state.
pub struct EngineView {
    pub rx: RxState,
    pub tx: TxView,
    pub next_packet_id: u8,
}

/// What the sending side does on a tick.
#[derive(Clone, Copy, Debug, PartialEq, Eq, Structural)]
pub enum TxAction {
    /// Send nothing.
    Wait,
    /// Drop the outstanding frame after too many transmissions.
    GiveUp,
    /// Send the outstanding frame again.
    Resend,
    /// Send a bare acknowledgement.
    AckOnly,
    /// Take new bytes from the UART and send them in a new frame.
    Originate,
}

impl TxState {
    pub open spec fn wf(&self) -> bool {
        match *self {
            TxState::Idle => true,
            TxState::Sent { packet_data, .. } => packet_data.wf(),
        }
    }

    pub open spec fn view(&self) -> TxView {
        match *self {
            TxState::Idle => TxView::Idle,
            TxState::Sent { packet_data, tx_count, since } => TxView::Sent {
                id: packet_data.id,
                payload: packet_data.payload(),
                tx_count,
                since,
            },
        }
    }
}

/// The id that follows `id`, wrapping from 255 to 0.
pub open spec fn next_id(id: u8) -> u8 {
    ((id + 1) % 256) as u8
}

/// The id before `id`, wrapping from 0 to 255.
pub open spec fn prev_id(id: u8) -> u8 {
    ((id + 255) % 256) as u8
}

/// Ticks from `since` to `now` on a counter that wraps at 2^32.
pub open spec fn elapsed(now: u32, since: u32) -> int {
    if now >= since {
        now - since
    } else {
        now + 0x1_0000_0000 - since
    }
}

/// The pseudo-random part of the retransmission delay, which breaks the
/// symmetry of two peers with aligned clocks.
pub open spec fn jitter(now: u32) -> int {
    (now * 7) % 89
}

/// Has the outstanding frame waited long enough to be sent again?
pub open spec fn retransmit_due(now: u32, since: u32) -> bool {
    elapsed(now, since) > RETRY_BASE + jitter(now)
}

/// What the sending side does, given the state, whether the UART has bytes
/// waiting, and the time.
pub open spec fn tx_action(e: EngineView, pending: bool, now: u32) -> TxAction {
    match e.tx {
        TxView::Sent { tx_count, since, .. } => {
            if e.rx is NeedsAck {
                TxAction::Resend
            } else if !retransmit_due(now, since) {
                TxAction::Wait
            } else if tx_count >= RETRY_CAP {
                TxAction::GiveUp
            } else {
                TxAction::Resend
            }
        },
        TxView::Idle => {
            if pending {
                TxAction::Originate
            } else if e.rx is NeedsAck {
                TxAction::AckOnly
            } else {
                TxAction::Wait
            }
        },
    }
}

/// Does the action put a frame on the radio?
pub open spec fn emits(a: TxAction) -> bool {
    a is Resend || a is AckOnly || a is Originate
}

/// The receive state once an owed acknowledgement has been sent.
pub open spec fn acked(rx: RxState) -> RxState {
    match rx {
        RxState::NeedsAck(a) => RxState::Acked(a),
        _ => rx,
    }
}

/// How many bytes a new frame takes from a UART queue holding `q`.
pub open spec fn drain_len(q: Seq<u8>) -> int {
    if q.len() < MAX_DATA_SIZE {
        q.len() as int
    } else {
        MAX_DATA_SIZE as int
    }
}

/// The frame an emitting action sends; `fresh` is what a new frame carries.
pub open spec fn sent_frame(e: EngineView, a: TxAction, fresh: Seq<u8>) -> Frame {
    match a {
        TxAction::Resend => match e.tx {
            TxView::Sent { id, payload, .. } => match e.rx {
                RxState::NeedsAck(x) => Frame::Both(x, id, payload),
                RxState::Acked(x) => Frame::Both(x, id, payload),
                RxState::Initial => Frame::Data(id, payload),
            },
            TxView::Idle => Frame::Ack(0),
        },
        TxAction::Originate => match e.rx {
            RxState::NeedsAck(x) => Frame::Both(x, e.next_packet_id, fresh),
            _ => Frame::Data(e.next_packet_id, fresh),
        },
        _ => match e.rx {
            RxState::NeedsAck(x) => Frame::Ack(x),
            _ => Frame::Ack(0),
        },
    }
}

/// `n + 1`, held at the largest `u32`.
pub open spec fn count_up(n: u32) -> u32 {
    if n == u32::MAX {
        n
    } else {
        (n + 1) as u32
    }
}

/// The state after the action, sent at `now`; `fresh` is what a new frame
/// carries.
pub open spec fn after_action(e: EngineView, a: TxAction, now: u32, fresh: Seq<u8>) -> EngineView {
    match a {
        TxAction::Wait => e,
        TxAction::GiveUp => EngineView { tx: TxView::Idle, ..e },
        TxAction::Resend => match e.tx {
            TxView::Sent { id, payload, tx_count, .. } => EngineView {
                rx: acked(e.rx),
                tx: TxView::Sent { id, payload, tx_count: count_up(tx_count), since: now },
                ..e
            },
            TxView::Idle => e,
        },
        TxAction::AckOnly => EngineView { rx: acked(e.rx), ..e },
        TxAction::Originate => EngineView {
            rx: acked(e.rx),
            tx: TxView::Sent { id: e.next_packet_id, payload: fresh, tx_count: 1, since: now },
            next_packet_id: next_id(e.next_packet_id),
        },
    }
}

/// The sending side once the acknowledgement of `a` has arrived.
pub open spec fn tx_after_ack(tx: TxView, a: u8) -> TxView {
    match tx {
        TxView::Sent { id, .. } => if id == a {
            TxView::Idle
        } else {
            tx
        },
        TxView::Idle => tx,
    }
}

/// The receiving side once DATA with `id` has arrived.
pub open spec fn rx_after_data(rx: RxState, id: u8) -> RxState {
    match rx {
        RxState::NeedsAck(x) => RxState::NeedsAck(x),
        _ => RxState::NeedsAck(id),
    }
}

/// Is DATA with `id` new, so that its bytes go to the UART?
pub open spec fn delivers(rx: RxState, id: u8) -> bool {
    match rx {
        RxState::Initial => true,
        RxState::Acked(last) => last != id,
        RxState::NeedsAck(_) => false,
    }
}

/// The state after a received frame.
pub open spec fn on_frame(e: EngineView, f: Frame) -> EngineView {
    match f {
        Frame::Ack(a) => EngineView { tx: tx_after_ack(e.tx, a), ..e },
        Frame::Data(id, _) => EngineView { rx: rx_after_data(e.rx, id), ..e },
        Frame::Both(a, id, _) => EngineView {
            rx: rx_after_data(e.rx, id),
            tx: tx_after_ack(e.tx, a),
            ..e
        },
    }
}

/// The bytes a received frame hands to the UART.
pub open spec fn delivery(e: EngineView, f: Frame) -> Seq<u8> {
    match f {
        Frame::Ack(_) => Seq::empty(),
        Frame::Data(id, p) => if delivers(e.rx, id) {
            p
        } else {
            Seq::empty()
        },
        Frame::Both(_, id, p) => if delivers(e.rx, id) {
            p
        } else {
            Seq::empty()
        },
    }
}

/// The data bytes of a UART queue holding `q` after `p` is offered to it
/// byte by byte: what does not fit is dropped.
pub open spec fn accept_bytes(q: Seq<u8>, p: Seq<u8>) -> Seq<u8> {
    let room = if q.len() >= DATA_CAPACITY {
        0
    } else {
        DATA_CAPACITY - q.len()
    };
    q + p.take(if p.len() < room {
        p.len() as int
    } else {
        room as int
    })
}

/// `after` is `before` with one frame, whose content is `f`, added at the back.
pub open spec fn pushed_frame(before: Seq<Packet>, after: Seq<Packet>, f: Frame) -> bool {
    &&& after.len() == before.len() + 1
    &&& after.drop_last() == before
    &&& after.last()@ == f
}

/// One transmit step, from state `e0` with UART queue `uart0` and radio
/// queue `out0` at time `now`, to `e1`, `uart1` and `out1`. When the action
/// would send a frame and the radio queue is full, nothing changes.
pub open spec fn transmit_step(
    e0: EngineView,
    e1: EngineView,
    uart0: Seq<u8>,
    uart1: Seq<u8>,
    out0: Seq<Packet>,
    out1: Seq<Packet>,
    now: u32,
) -> bool {
    let a = tx_action(e0, uart0.len() > 0, now);
    let n = if a is Originate {
        drain_len(uart0)
    } else {
        0
    };
    let fresh = uart0.take(n);
    if emits(a) && out0.len() >= PACKET_CAPACITY {
        e1 == e0 && uart1 == uart0 && out1 == out0
    } else {
        &&& e1 == after_action(e0, a, now, fresh)
        &&& uart1 == uart0.skip(n)
        &&& if emits(a) {
            pushed_frame(out0, out1, sent_frame(e0, a, fresh))
        } else {
            out1 == out0
        }
    }
}

/// The state once the first of the received frames `frames`, if any, is
/// handled.
pub open spec fn after_receive(e: EngineView, frames: Seq<Packet>) -> EngineView {
    if frames.len() == 0 {
        e
    } else {
        on_frame(e, frames[0]@)
    }
}

/// The bytes that handling the first of the received frames `frames` hands to
/// the UART.
pub open spec fn received_bytes(e: EngineView, frames: Seq<Packet>) -> Seq<u8> {
    if frames.len() == 0 {
        Seq::empty()
    } else {
        delivery(e, frames[0]@)
    }
}

/// Does handling the first of the received frames `frames` hand a new
/// payload to the UART?
pub open spec fn receives_new(e: EngineView, frames: Seq<Packet>) -> bool {
    frames.len() > 0 && match frames[0]@ {
        Frame::Ack(_) => false,
        Frame::Data(id, _) => delivers(e.rx, id),
        Frame::Both(_, id, _) => delivers(e.rx, id),
    }
}

/// The engine's state holds together: an outstanding frame is well formed,
/// has been sent at least once, and carries the id given out last.
pub open spec fn engine_inv(e: EngineView) -> bool {
    match e.tx {
        TxView::Sent { id, payload, tx_count, .. } => {
            &&& payload.len() <= MAX_DATA_SIZE
            &&& tx_count >= 1
            &&& id == prev_id(e.next_packet_id)
        },
        TxView::Idle => true,
    }
}

/// The protocol engine: deduplicates received DATA, acknowledges it, and
/// sends the local UART's bytes with at most one frame unacknowledged.
pub struct RadioProtocol {
    rx_state: RxState,
    tx_state: TxState,
    next_packet_id: u8,
}

impl PacketData {
    /// Takes up to `MAX_DATA_SIZE` bytes from the front of `queue` into a
    /// payload with the given id.
    pub fn from_consumer(id: u8, queue: &mut Queue) -> (r: PacketData)
        ensures
            r.wf(),
            r.id == id,
            r.payload() == old(queue)@.take(drain_len(old(queue)@)),
            final(queue)@ == old(queue)@.skip(drain_len(old(queue)@)),
            final(queue).xoff_requested() == old(queue).xoff_requested(),
    {
        let mut data = [0u8; MAX_DATA_SIZE];
        let mut len: usize = 0;
        let ghost q0 = queue@;
        while len < MAX_DATA_SIZE
            invariant
                len <= MAX_DATA_SIZE,
                len <= q0.len(),
                data@.len() == MAX_DATA_SIZE,
                data@.subrange(0, len as int) == q0.take(len as int),
                queue@ == q0.skip(len as int),
                queue.xoff_requested() == old(queue).xoff_requested(),
            ensures
                len == drain_len(q0),
                data@.subrange(0, len as int) == q0.take(len as int),
                queue@ == q0.skip(len as int),
                queue.xoff_requested() == old(queue).xoff_requested(),
            decreases MAX_DATA_SIZE - len,
        {
            match queue.dequeue() {
                Some(c) => {
                    data[len] = c;
                    len = len + 1;
                    assert(data@.subrange(0, len as int) =~= q0.take(len as int));
                    assert(queue@ =~= q0.skip(len as int));
                },
                None => {
                    break ;
                },
            }
        }
        PacketData { id, data_len: len as u8, data }
    }
}

/// Offers the payload's bytes to the UART queue; bytes that do not fit are
/// dropped.
fn deliver(uart_tx: &mut Queue, pd: &PacketData)
    requires
        pd.wf(),
    ensures
        final(uart_tx).data() == accept_bytes(old(uart_tx).data(), pd.payload()),
        final(uart_tx).control() == old(uart_tx).control(),
        final(uart_tx).xoff_requested() == old(uart_tx).xoff_requested(),
{
    let len = pd.data_len as usize;
    let ghost q0 = uart_tx.data();
    let ghost p = pd.payload();
    let ghost room: int = if q0.len() >= DATA_CAPACITY {
        0
    } else {
        DATA_CAPACITY - q0.len()
    };
    let mut i: usize = 0;
    while i < len
        invariant
            i <= len,
            len == p.len(),
            p == pd.payload(),
            pd.wf(),
            room == (if q0.len() >= DATA_CAPACITY {
                0
            } else {
                DATA_CAPACITY - q0.len()
            }),
            uart_tx.data() == q0 + p.take(if (i as int) < room {
                i as int
            } else {
                room
            }),
            uart_tx.control() == old(uart_tx).control(),
            uart_tx.xoff_requested() == old(uart_tx).xoff_requested(),
        decreases len - i,
    {
        let _ = uart_tx.enqueue(pd.data[i]);
        i = i + 1;
        assert(uart_tx.data() =~= q0 + p.take(if (i as int) < room {
            i as int
        } else {
            room
        }));
    }
    assert(p.take(len as int) =~= p);
}

impl RadioProtocol {
    #[verifier::type_invariant]
    spec fn inv(self) -> bool {
        &&& self.tx_state.wf()
        &&& engine_inv(self@)
    }

    pub closed spec fn view(&self) -> EngineView {
        EngineView { rx: self.rx_state, tx: self.tx_state@, next_packet_id: self.next_packet_id }
    }

    pub fn new() -> (r: Self)
        ensures
            r@ == (EngineView { rx: RxState::Initial, tx: TxView::Idle, next_packet_id: 0 }),
    {
        RadioProtocol { rx_state: RxState::Initial, tx_state: TxState::Idle, next_packet_id: 0 }
    }

    /// An acknowledgement arrived: the outstanding frame it names is done.
    fn handle_rx_ack(&mut self, rx_id: u8)
        ensures
            final(self)@ == on_frame(old(self)@, Frame::Ack(rx_id)),
    {
        proof {
            use_type_invariant(&*self);
        }
        if let TxState::Sent { packet_data, .. } = self.tx_state {
            if packet_data.id == rx_id {
                self.tx_state = TxState::Idle;
            }
        }
    }

    /// DATA arrived: a new payload goes to the UART, and an acknowledgement
    /// is owed. A payload already delivered is not delivered again.
    fn handle_rx_data(&mut self, pd: PacketData, uart_tx: &mut Queue) -> (r: Pend)
        requires
            pd.wf(),
        ensures
            final(self)@ == on_frame(old(self)@, Frame::Data(pd.id, pd.payload())),
            final(uart_tx).data() == accept_bytes(
                old(uart_tx).data(),
                delivery(old(self)@, Frame::Data(pd.id, pd.payload())),
            ),
            final(uart_tx).control() == old(uart_tx).control(),
            final(uart_tx).xoff_requested() == old(uart_tx).xoff_requested(),
            r == Pend::from_flags(false, delivers(old(self)@.rx, pd.id)),
            old(self)@.rx == RxState::Acked(pd.id) ==> final(uart_tx)@ == old(uart_tx)@,
    {
        proof {
            use_type_invariant(&*self);
        }
        let fresh = match self.rx_state {
            RxState::Initial => true,
            RxState::Acked(last) => last != pd.id,
            RxState::NeedsAck(_) => false,
        };
        if fresh {
            deliver(uart_tx, &pd);
        } else {
            assert(accept_bytes(old(uart_tx).data(), Seq::empty()) =~= old(uart_tx).data());
        }
        if !matches!(self.rx_state, RxState::NeedsAck(_)) {
            self.rx_state = RxState::NeedsAck(pd.id);
        }
        if fresh {
            Pend::Uart
        } else {
            Pend::Nothing
        }
    }

    /// Handles the first received frame, if any. In a combined frame the
    /// acknowledgement is handled before the data.
    fn receive(&mut self, radio_rx: &mut PacketQueue, uart_tx: &mut Queue) -> (r: Pend)
        ensures
            final(self)@ == after_receive(old(self)@, old(radio_rx)@),
            final(radio_rx)@ == (if old(radio_rx)@.len() == 0 {
                old(radio_rx)@
            } else {
                old(radio_rx)@.drop_first()
            }),
            final(uart_tx).data() == accept_bytes(
                old(uart_tx).data(),
                received_bytes(old(self)@, old(radio_rx)@),
            ),
            final(uart_tx).control() == old(uart_tx).control(),
            final(uart_tx).xoff_requested() == old(uart_tx).xoff_requested(),
            r == Pend::from_flags(false, receives_new(old(self)@, old(radio_rx)@)),
    {
        match radio_rx.dequeue() {
            Some(Packet::Data(pd)) => self.handle_rx_data(pd, uart_tx),
            Some(Packet::Ack(id)) => {
                self.handle_rx_ack(id);
                assert(accept_bytes(old(uart_tx).data(), Seq::empty()) =~= old(uart_tx).data());
                Pend::Nothing
            },
            Some(Packet::Both(ack_id, pd)) => {
                self.handle_rx_ack(ack_id);
                self.handle_rx_data(pd, uart_tx)
            },
            None => {
                assert(accept_bytes(old(uart_tx).data(), Seq::empty()) =~= old(uart_tx).data());
                Pend::Nothing
            },
        }
    }

    /// The decision table of the sending side.
    fn decide(&self, pending: bool, now: u32) -> (a: TxAction)
        ensures
            a == tx_action(self@, pending, now),
    {
        match self.tx_state {
            TxState::Sent { tx_count, since, .. } => {
                let elapsed = now.wrapping_sub(since);
                let jitter = ((now as u64) * 7 % 89) as u32;
                if matches!(self.rx_state, RxState::NeedsAck(_)) {
                    TxAction::Resend
                } else if elapsed <= RETRY_BASE + jitter {
                    TxAction::Wait
                } else if tx_count >= RETRY_CAP {
                    TxAction::GiveUp
                } else {
                    TxAction::Resend
                }
            },
            TxState::Idle => {
                if pending {
                    TxAction::Originate
                } else if matches!(self.rx_state, RxState::NeedsAck(_)) {
                    TxAction::AckOnly
                } else {
                    TxAction::Wait
                }
            },
        }
    }

    /// Takes the next packet id.
    fn get_packet_id(&mut self) -> (r: u8)
        requires
            old(self)@.tx is Idle,
        ensures
            r == old(self)@.next_packet_id,
            final(self)@ == (EngineView { next_packet_id: next_id(r), ..old(self)@ }),
    {
        let id = self.next_packet_id;
        self.next_packet_id = self.next_packet_id.wrapping_add(1);
        id
    }

    /// Sends the outstanding frame again, with any acknowledgement owed.
    fn handle_waiting_for_ack(&mut self, now: u32, radio_tx: &mut PacketQueue) -> (r: Pend)
        requires
            old(self)@.tx is Sent,
        ensures
            transmit_step(
                old(self)@,
                final(self)@,
                Seq::empty(),
                Seq::empty(),
                old(radio_tx)@,
                final(radio_tx)@,
                now,
            ),
            r == Pend::from_flags(emits(tx_action(old(self)@, false, now)), false),
    {
        proof {
            use_type_invariant(&*self);
        }
        let action = self.decide(false, now);
        assert(Seq::<u8>::empty().skip(0) =~= Seq::<u8>::empty());
        match action {
            TxAction::GiveUp => {
                self.tx_state = TxState::Idle;
                Pend::Nothing
            },
            TxAction::Resend => {
                if radio_tx.is_full() {
                    return Pend::Radio;
                }
                if let TxState::Sent { packet_data, tx_count, .. } = self.tx_state {
                    let packet = match self.rx_state {
                        RxState::NeedsAck(a) => Packet::Both(a, packet_data),
                        RxState::Acked(a) => Packet::Both(a, packet_data),
                        RxState::Initial => Packet::Data(packet_data),
                    };
                    let _ = radio_tx.enqueue(packet);
                    assert(radio_tx@.drop_last() =~= old(radio_tx)@);
                    self.tx_state = TxState::Sent {
                        packet_data,
                        tx_count: tx_count.saturating_add(1),
                        since: now,
                    };
                    if let RxState::NeedsAck(a) = self.rx_state {
                        self.rx_state = RxState::Acked(a);
                    }
                }
                Pend::Radio
            },
            _ => Pend::Nothing,
        }
    }

    /// With nothing outstanding: sends new UART bytes, with any
    /// acknowledgement owed, or a bare acknowledgement.
    fn handle_tx_data(&mut self, now: u32, uart_rx: &mut Queue, radio_tx: &mut PacketQueue) -> (r: Pend)
        requires
            old(self)@.tx is Idle,
        ensures
            transmit_step(
                old(self)@,
                final(self)@,
                old(uart_rx)@,
                final(uart_rx)@,
                old(radio_tx)@,
                final(radio_tx)@,
                now,
            ),
            final(uart_rx).xoff_requested() == old(uart_rx).xoff_requested(),
            r == Pend::from_flags(emits(tx_action(old(self)@, old(uart_rx)@.len() > 0, now)), false),
    {
        proof {
            use_type_invariant(&*self);
        }
        let action = self.decide(!uart_rx.is_empty(), now);
        assert(old(uart_rx)@.skip(0) =~= old(uart_rx)@);
        match action {
            TxAction::AckOnly => {
                if radio_tx.is_full() {
                    return Pend::Radio;
                }
                if let RxState::NeedsAck(a) = self.rx_state {
                    let _ = radio_tx.enqueue(Packet::Ack(a));
                    assert(radio_tx@.drop_last() =~= old(radio_tx)@);
                    self.rx_state = RxState::Acked(a);
                }
                Pend::Radio
            },
            TxAction::Originate => {
                if radio_tx.is_full() {
                    return Pend::Radio;
                }
                let id = self.get_packet_id();
                let packet_data = PacketData::from_consumer(id, uart_rx);
                let packet = match self.rx_state {
                    RxState::NeedsAck(a) => Packet::Both(a, packet_data),
                    _ => Packet::Data(packet_data),
                };
                let _ = radio_tx.enqueue(packet);
                assert(radio_tx@.drop_last() =~= old(radio_tx)@);
                self.tx_state = TxState::Sent { packet_data, tx_count: 1, since: now };
                if let RxState::NeedsAck(a) = self.rx_state {
                    self.rx_state = RxState::Acked(a);
                }
                Pend::Radio
            },
            _ => Pend::Nothing,
        }
    }

    /// One tick of the engine at time `now`: handles at most one received
    /// frame, then puts at most one frame on the radio queue. The result
    /// names the tasks that have new work.
    pub fn run(&mut self, now: u32, queues: &mut Queues) -> (r: Pend)
        ensures
            ({
                let e0 = old(self)@;
                let frames = old(queues).radio_rx@;
                let e1 = after_receive(e0, frames);
                let a = tx_action(e1, old(queues).uart_rx@.len() > 0, now);
                &&& final(queues).radio_rx@ == (if frames.len() == 0 {
                    frames
                } else {
                    frames.drop_first()
                })
                &&& final(queues).uart_tx.data() == accept_bytes(
                    old(queues).uart_tx.data(),
                    received_bytes(e0, frames),
                )
                &&& transmit_step(
                    e1,
                    final(self)@,
                    old(queues).uart_rx@,
                    final(queues).uart_rx@,
                    old(queues).radio_tx@,
                    final(queues).radio_tx@,
                    now,
                )
                &&& r == Pend::from_flags(emits(a), receives_new(e0, frames))
            }),
            final(queues).uart_tx.control() == old(queues).uart_tx.control(),
            final(queues).uart_tx.xoff_requested() == old(queues).uart_tx.xoff_requested(),
            final(queues).uart_rx.xoff_requested() == old(queues).uart_rx.xoff_requested(),
            engine_inv(final(self)@),
    {
        let rx = self.receive(&mut queues.radio_rx, &mut queues.uart_tx);
        let ghost e1 = self@;
        let tx = if let TxState::Sent { .. } = self.tx_state {
            let t = self.handle_waiting_for_ack(now, &mut queues.radio_tx);
            assert(tx_action(e1, false, now) == tx_action(e1, old(queues).uart_rx@.len() > 0, now));
            assert(old(queues).uart_rx@.skip(0) =~= old(queues).uart_rx@);
            assert(Seq::<u8>::empty().take(0) =~= old(queues).uart_rx@.take(0));
            t
        } else {
            self.handle_tx_data(now, &mut queues.uart_rx, &mut queues.radio_tx)
        };
        proof {
            use_type_invariant(&*self);
        }
        rx + tx
    }

    pub fn rx_state(&self) -> (r: RxState)
        ensures
            r == self@.rx,
    {
        self.rx_state
    }

    pub fn tx_state(&self) -> (r: TxState)
        ensures
            r@ == self@.tx,
            r.wf(),
    {
        proof {
            use_type_invariant(self);
        }
        self.tx_state
    }

    pub fn next_packet_id(&self) -> (r: u8)
        ensures
            r == self@.next_packet_id,
    {
        self.next_packet_id
    }
}

/// A new frame carries the id given out last: right after origination the
/// outstanding frame's id is `next_packet_id - 1`, modulo 256, and the id
/// advances once.
pub proof fn lemma_originated_id(e: EngineView, pending: bool, now: u32, fresh: Seq<u8>)
    requires
        tx_action(e, pending, now) == TxAction::Originate,
    ensures
        after_action(e, TxAction::Originate, now, fresh).tx matches TxView::Sent { id, .. } && id
            == e.next_packet_id && id == prev_id(
            after_action(e, TxAction::Originate, now, fresh).next_packet_id,
        ),
        after_action(e, TxAction::Originate, now, fresh).next_packet_id == next_id(
            e.next_packet_id,
        ),
{
}

/// The invariant `engine_inv` holds after every received frame and every
/// transmit action.
pub proof fn lemma_inv_preserved(
    e: EngineView,
    f: Frame,
    pending: bool,
    now: u32,
    fresh: Seq<u8>,
)
    requires
        engine_inv(e),
        fresh.len() <= MAX_DATA_SIZE,
    ensures
        engine_inv(on_frame(e, f)),
        engine_inv(after_action(e, tx_action(e, pending, now), now, fresh)),
{
}

/// A combined frame acts as its acknowledgement followed by its data, on the
/// state and on the bytes handed to the UART.
pub proof fn lemma_both_is_ack_then_data(e: EngineView, a: u8, id: u8, p: Seq<u8>)
    ensures
        on_frame(e, Frame::Both(a, id, p)) == on_frame(
            on_frame(e, Frame::Ack(a)),
            Frame::Data(id, p),
        ),
        delivery(e, Frame::Both(a, id, p)) == delivery(e, Frame::Ack(a)) + delivery(
            on_frame(e, Frame::Ack(a)),
            Frame::Data(id, p),
        ),
{
    assert(delivery(e, Frame::Both(a, id, p)) =~= delivery(e, Frame::Ack(a)) + delivery(
        on_frame(e, Frame::Ack(a)),
        Frame::Data(id, p),
    ));
}

/// DATA whose id is the one last acknowledged is not delivered again, and
/// the acknowledgement is owed once more.
pub proof fn lemma_duplicate_not_redelivered(e: EngineView, id: u8, p: Seq<u8>)
    requires
        e.rx == RxState::Acked(id),
    ensures
        delivery(e, Frame::Data(id, p)) == Seq::<u8>::empty(),
        on_frame(e, Frame::Data(id, p)).rx == RxState::NeedsAck(id),
{
}

/// The same DATA received twice, with only acknowledgements sent or received
/// in between, has its payload delivered at most once. `between` is the state
/// at the second arrival; sending an acknowledgement is what may have changed
/// its receiving side.
pub proof fn lemma_delivered_at_most_once(
    e: EngineView,
    id: u8,
    p: Seq<u8>,
    between: EngineView,
    ack_sent: bool,
)
    requires
        between.rx == (if ack_sent {
            acked(on_frame(e, Frame::Data(id, p)).rx)
        } else {
            on_frame(e, Frame::Data(id, p)).rx
        }),
    ensures
        delivery(e, Frame::Data(id, p)).len() == 0 || delivery(
            between,
            Frame::Data(id, p),
        ).len() == 0,
{
}

} // verus!
