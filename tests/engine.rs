use microbit_radio_bridge::{
    Packet, PacketData, Pend, Queues, RadioProtocol, RxState, TxState, MAX_DATA_SIZE,
    MAX_PACKET_SIZE,
};

struct Node {
    engine: RadioProtocol,
    queues: Queues,
}

impl Node {
    fn new() -> Self {
        Node {
            engine: RadioProtocol::new(),
            queues: Queues::new(),
        }
    }

    fn feed(&mut self, bytes: &[u8]) {
        for b in bytes {
            self.queues.uart_rx.enqueue(*b).unwrap();
        }
    }

    fn tick(&mut self, now: u32) -> Pend {
        self.engine.run(now, &mut self.queues)
    }

    /// Frames the node put on the radio, encoded as they go on air.
    fn sent(&mut self) -> Vec<PacketBuffer> {
        let mut out = Vec::new();
        while let Some(p) = self.queues.radio_tx.dequeue() {
            let mut buf = [0u8; MAX_PACKET_SIZE];
            p.write(&mut buf);
            out.push(buf);
        }
        out
    }

    fn receive(&mut self, frames: &[PacketBuffer]) {
        for buf in frames {
            let p = Packet::read(buf).expect("frame decodes");
            self.queues.radio_rx.enqueue(p).unwrap();
        }
    }

    fn uart_out(&mut self) -> Vec<u8> {
        let mut out = Vec::new();
        while let Some(b) = self.queues.uart_tx.dequeue() {
            out.push(b);
        }
        out
    }

    fn is_idle(&self) -> bool {
        matches!(self.engine.tx_state(), TxState::Idle)
    }
}

type PacketBuffer = [u8; MAX_PACKET_SIZE];

fn frame_of(buf: &PacketBuffer) -> Packet {
    Packet::read(buf).unwrap()
}

fn data_of(pd: &PacketData) -> (u8, Vec<u8>) {
    (pd.id, pd.iter().copied().collect())
}

fn is_data(buf: &PacketBuffer, id: u8, bytes: &[u8]) -> bool {
    match frame_of(buf) {
        Packet::Data(pd) => data_of(&pd) == (id, bytes.to_vec()),
        _ => false,
    }
}

fn is_both(buf: &PacketBuffer, ack: u8, id: u8, bytes: &[u8]) -> bool {
    match frame_of(buf) {
        Packet::Both(a, pd) => a == ack && data_of(&pd) == (id, bytes.to_vec()),
        _ => false,
    }
}

fn is_ack(buf: &PacketBuffer, ack: u8) -> bool {
    matches!(frame_of(buf), Packet::Ack(a) if a == ack)
}

#[test]
fn clean_one_way() {
    let mut a = Node::new();
    let mut b = Node::new();
    a.feed(&[0x41, 0x42, 0x43]);
    assert_eq!(a.tick(0), Pend::Radio);
    let fa = a.sent();
    assert_eq!(fa.len(), 1);
    assert!(is_data(&fa[0], 0, b"ABC"));
    assert!(a.queues.uart_rx.is_empty());

    b.receive(&fa);
    assert_eq!(b.tick(0), Pend::Both);
    let fb = b.sent();
    assert_eq!(fb.len(), 1);
    assert!(is_ack(&fb[0], 0));
    assert_eq!(b.engine.rx_state(), RxState::Acked(0));

    a.receive(&fb);
    assert_eq!(a.tick(1), Pend::Nothing);
    assert!(a.is_idle());
    assert_eq!(b.uart_out(), vec![0x41, 0x42, 0x43]);
}

#[test]
fn piggyback() {
    let mut a = Node::new();
    let mut b = Node::new();
    a.feed(b"AB");
    b.feed(b"YZ");
    a.tick(0);
    b.tick(0);
    let fa = a.sent();
    let fb = b.sent();
    assert!(is_data(&fa[0], 0, b"AB"));
    assert!(is_data(&fb[0], 0, b"YZ"));

    a.receive(&fb);
    b.receive(&fa);
    a.tick(1);
    b.tick(1);
    let fa = a.sent();
    let fb = b.sent();
    assert_eq!(fa.len(), 1);
    assert_eq!(fb.len(), 1);
    assert!(is_both(&fa[0], 0, 0, b"AB"));
    assert!(is_both(&fb[0], 0, 0, b"YZ"));

    a.receive(&fb);
    b.receive(&fa);
    a.tick(2);
    b.tick(2);
    assert!(a.is_idle());
    assert!(b.is_idle());
    assert_eq!(a.uart_out(), b"YZ".to_vec());
    assert_eq!(b.uart_out(), b"AB".to_vec());
}

#[test]
fn single_loss() {
    let mut a = Node::new();
    let mut b = Node::new();
    a.feed(b"AB");
    let since = 86;
    a.tick(since);
    let lost = a.sent();
    assert!(is_data(&lost[0], 0, b"AB"));

    a.tick(since + 2);
    assert!(a.sent().is_empty());
    a.tick(since + 3);
    let again = a.sent();
    assert_eq!(again.len(), 1);
    assert!(is_data(&again[0], 0, b"AB"));

    b.receive(&again);
    b.tick(since + 3);
    let fb = b.sent();
    assert!(is_ack(&fb[0], 0));
    a.receive(&fb);
    a.tick(since + 4);
    assert!(a.is_idle());
    assert_eq!(b.uart_out(), b"AB".to_vec());
}

#[test]
fn duplicate_delivery() {
    let mut a = Node::new();
    let mut b = Node::new();
    a.feed(b"AB");
    a.tick(0);
    let fa = a.sent();
    b.receive(&fa);
    b.tick(0);
    let lost_ack = b.sent();
    assert!(is_ack(&lost_ack[0], 0));
    assert_eq!(b.uart_out(), b"AB".to_vec());
    assert_eq!(b.engine.rx_state(), RxState::Acked(0));

    a.tick(89);
    let again = a.sent();
    assert!(is_data(&again[0], 0, b"AB"));
    b.receive(&again);
    assert_eq!(b.tick(89), Pend::Radio);
    assert!(b.uart_out().is_empty());
    let fb = b.sent();
    assert_eq!(fb.len(), 1);
    assert!(is_ack(&fb[0], 0));
}

#[test]
fn retry_exhaustion() {
    let mut a = Node::new();
    a.feed(b"AB");
    let mut transmissions = 0;
    let mut now: u32 = 0;
    a.tick(now);
    transmissions += a.sent().len();
    for _ in 0..40 {
        now += 89;
        a.tick(now);
        transmissions += a.sent().len();
        if a.is_idle() {
            break;
        }
    }
    assert!(a.is_idle());
    assert_eq!(transmissions, 16);

    a.feed(b"C");
    now += 1;
    a.tick(now);
    let f = a.sent();
    assert_eq!(f.len(), 1);
    assert!(is_data(&f[0], 1, b"C"));
    assert_eq!(a.engine.next_packet_id(), 2);
}

#[test]
fn retransmit_across_counter_wrap() {
    let mut a = Node::new();
    a.feed(b"W");
    a.tick(u32::MAX - 2);
    assert_eq!(a.sent().len(), 1);
    a.tick(u32::MAX);
    assert!(a.sent().is_empty());
    a.tick(0);
    let f = a.sent();
    assert_eq!(f.len(), 1);
    assert!(is_data(&f[0], 0, b"W"));
    match a.engine.tx_state() {
        TxState::Sent { tx_count, since, .. } => {
            assert_eq!(tx_count, 2);
            assert_eq!(since, 0);
        }
        TxState::Idle => panic!("still outstanding"),
    }
}

#[test]
fn packet_id_wraps() {
    let mut a = Node::new();
    let mut b = Node::new();
    let mut now: u32 = 0;
    for i in 0..257u32 {
        a.feed(&[i as u8]);
        a.tick(now);
        let fa = a.sent();
        assert!(is_data(&fa[0], i as u8, &[i as u8]));
        b.receive(&fa);
        b.tick(now);
        a.receive(&b.sent());
        a.tick(now);
        assert!(a.is_idle());
        now += 1;
    }
    assert_eq!(a.engine.next_packet_id(), 1);
    assert_eq!(b.uart_out().len(), 257);
}

#[test]
fn long_input_split_at_max_data() {
    let mut a = Node::new();
    let bytes: Vec<u8> = (0..(MAX_DATA_SIZE + 5) as u8).collect();
    a.feed(&bytes);
    a.tick(0);
    let f = a.sent();
    assert!(is_data(&f[0], 0, &bytes[..MAX_DATA_SIZE]));
    assert_eq!(a.queues.uart_rx.len(), 5);
}

#[test]
fn stale_ack_is_ignored() {
    let mut a = Node::new();
    a.feed(b"Q");
    a.tick(0);
    a.sent();
    a.queues.radio_rx.enqueue(Packet::Ack(7)).unwrap();
    a.tick(1);
    assert!(!a.is_idle());
}

#[test]
fn full_radio_queue_keeps_state() {
    let mut a = Node::new();
    for _ in 0..7 {
        a.queues.radio_tx.enqueue(Packet::Ack(0)).unwrap();
    }
    a.feed(b"K");
    assert_eq!(a.tick(0), Pend::Radio);
    assert!(a.is_idle());
    assert_eq!(a.queues.uart_rx.len(), 1);
    assert_eq!(a.engine.next_packet_id(), 0);
}
