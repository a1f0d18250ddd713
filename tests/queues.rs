use microbit_radio_bridge::{
    Packet, PacketQueue, Pend, Queue, Queues, DATA_CAPACITY, PACKET_CAPACITY, XOFF, XON,
};

#[test]
fn queue_is_fifo() {
    let mut q = Queue::new();
    assert!(q.is_empty());
    assert_eq!(q.enqueue(1), Ok(()));
    assert_eq!(q.enqueue(2), Ok(()));
    assert_eq!(q.len(), 2);
    assert_eq!(q.dequeue(), Some(1));
    assert_eq!(q.dequeue(), Some(2));
    assert_eq!(q.dequeue(), None);
    assert!(q.is_empty());
}

#[test]
fn queue_full_hands_byte_back() {
    let mut q = Queue::new();
    for i in 0..DATA_CAPACITY {
        assert_eq!(q.enqueue(i as u8), Ok(()));
    }
    assert_eq!(q.enqueue(0xAA), Err(0xAA));
    assert_eq!(q.len(), DATA_CAPACITY);
    assert_eq!(q.dequeue(), Some(0));
}

#[test]
fn flow_control_at_high_does_nothing() {
    let mut q = Queue::new();
    let mut peer = Queue::new();
    for _ in 0..512 {
        q.enqueue(0).unwrap();
    }
    q.flow_control(&mut peer);
    assert!(peer.is_empty());
}

#[test]
fn flow_control_xoff_then_xon() {
    let mut uart_tx = Queue::new();
    let mut peer = Queue::new();
    peer.enqueue(b'a').unwrap();
    for i in 0..600 {
        uart_tx.enqueue(i as u8).unwrap();
    }
    uart_tx.flow_control(&mut peer);
    assert_eq!(peer.len(), 2);
    assert_eq!(peer.dequeue(), Some(XOFF));
    assert_eq!(peer.dequeue(), Some(b'a'));
    // no second XOFF while still above HIGH
    uart_tx.flow_control(&mut peer);
    assert!(peer.is_empty());
    // drain to exactly LOW: nothing yet
    while uart_tx.len() > 256 {
        uart_tx.dequeue();
    }
    uart_tx.flow_control(&mut peer);
    assert!(peer.is_empty());
    uart_tx.dequeue();
    uart_tx.flow_control(&mut peer);
    assert_eq!(peer.dequeue(), Some(XON));
    assert!(peer.is_empty());
}

#[test]
fn control_byte_goes_out_even_when_full() {
    let mut q = Queue::new();
    let mut peer = Queue::new();
    for _ in 0..DATA_CAPACITY {
        peer.enqueue(1).unwrap();
    }
    for _ in 0..600 {
        q.enqueue(0).unwrap();
    }
    q.flow_control(&mut peer);
    assert_eq!(peer.len(), DATA_CAPACITY + 1);
    assert_eq!(peer.dequeue(), Some(XOFF));
}

#[test]
fn regulate_sends_xoff_to_peer_direction() {
    let mut qs = Queues::new();
    for _ in 0..600 {
        qs.uart_tx.enqueue(b'x').unwrap();
    }
    qs.regulate();
    assert_eq!(qs.uart_rx.dequeue(), Some(XOFF));
    assert_eq!(qs.uart_tx.len(), 600);
}

#[test]
fn regulate_sends_xoff_to_host() {
    let mut qs = Queues::new();
    for _ in 0..513 {
        qs.uart_rx.enqueue(b'x').unwrap();
    }
    qs.regulate();
    assert_eq!(qs.uart_tx.dequeue(), Some(XOFF));
}

#[test]
fn packet_queue_bounded_fifo() {
    let mut q = PacketQueue::new();
    assert!(q.is_empty());
    for i in 0..PACKET_CAPACITY {
        assert!(q.enqueue(Packet::Ack(i as u8)).is_ok());
    }
    assert!(q.is_full());
    assert!(q.enqueue(Packet::Ack(99)).is_err());
    assert_eq!(q.len(), PACKET_CAPACITY);
    match q.dequeue() {
        Some(Packet::Ack(a)) => assert_eq!(a, 0),
        other => panic!("unexpected {:?}", other),
    }
}

#[test]
fn pend_plus_combines() {
    assert_eq!(Pend::Nothing.plus(Pend::Nothing), Pend::Nothing);
    assert_eq!(Pend::Radio.plus(Pend::Uart), Pend::Both);
    assert_eq!(Pend::Uart.plus(Pend::Nothing), Pend::Uart);
    assert_eq!(Pend::Nothing.plus(Pend::Radio), Pend::Radio);
    assert_eq!(Pend::Both.plus(Pend::Radio), Pend::Both);
    assert_eq!(Pend::Uart.plus(Pend::Uart), Pend::Uart);
}

#[test]
fn pend_operators() {
    assert_eq!(Pend::Radio + Pend::Uart, Pend::Both);
    assert_eq!(Pend::Nothing + Pend::Uart, Pend::Uart);
    let mut p = Pend::Nothing;
    p += Pend::Radio;
    assert_eq!(p, Pend::Radio);
    p += Pend::Nothing;
    assert_eq!(p, Pend::Radio);
    p += Pend::Uart;
    assert_eq!(p, Pend::Both);
}
