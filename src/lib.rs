//! A reliable byte-stream bridge over a lossy, half-duplex packet radio.
//!
//! The library holds the protocol engine (numbering, acknowledgement,
//! retransmission and deduplication of frames), the frame codec, the byte
//! queues with XON/XOFF flow control, and the decision logic of the radio and
//! UART adapters. Peripheral access lives outside the library.

mod frame;
mod packet_queue;
mod pend;
mod queue;
mod radio;
mod radio_protocol;
mod uart;

pub use frame::{
    frame_bytes, lemma_decode_encode, lemma_encode_decode, parse_frame, well_formed_frame, Frame,
    Packet, PacketBuffer, PacketData, MAX_DATA_SIZE, MAX_PACKET_SIZE, MIN_PACKET_SIZE, TAG_ACK,
    TAG_BOTH, TAG_DATA,
};
pub use packet_queue::{PacketQueue, Queues, PACKET_CAPACITY, PACKET_QUEUE_SIZE};
pub use pend::Pend;
pub use queue::{control_seq, Queue, DATA_CAPACITY, HIGH, LOW, QUEUE_SIZE, XOFF, XON};
pub use radio_protocol::{
    accept_bytes, acked, after_action, after_receive, count_up, delivers, delivery, drain_len,
    elapsed, emits, engine_inv, jitter, lemma_both_is_ack_then_data, lemma_delivered_at_most_once,
    lemma_duplicate_not_redelivered, lemma_inv_preserved, lemma_originated_id, next_id, on_frame,
    prev_id, pushed_frame, received_bytes, receives_new, retransmit_due, rx_after_data,
    sent_frame, transmit_step, tx_action, tx_after_ack, EngineView, RadioProtocol,
    RxState, TxAction, TxState, TxView, RETRY_BASE, RETRY_CAP,
};
pub use radio::{
    commands_on_ready, received_into, Mode, RadioCommands, RadioEvents, RadioLink,
};
pub use uart::{UartLink, UartStep};
