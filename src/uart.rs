use crate::queue::Queue;
use vstd::prelude::*;

verus! {

/// What the UART driver does after a step.
#[derive(Clone, Copy, Debug, PartialEq, Eq, Structural)]
pub struct UartStep {
    /// The byte to put in the transmit register.
    pub write: Option<u8>,
    /// A byte was received, so the engine has work.
    pub received: bool,
}

/// The UART driver's state: whether a byte is being sent.
pub struct UartLink {
    pub txing: bool,
}

impl UartLink {
    pub fn new() -> (r: Self)
        ensures
            !r.txing,
    {
        UartLink { txing: false }
    }

    /// One run of the UART interrupt. `tx_done` says the last byte went out;
    /// `rx` is the byte that came in, if any. When the transmitter is free the
    /// next byte of `uart_tx` goes out. A received byte is queued in
    /// `uart_rx`, or dropped when it is full.
    pub fn handle_interrupt(
        &mut self,
        tx_done: bool,
        rx: Option<u8>,
        uart_tx: &mut Queue,
        uart_rx: &mut Queue,
    ) -> (r: UartStep)
        ensures
            ({
                let free = tx_done || !old(self).txing;
                let sends = free && old(uart_tx)@.len() > 0;
                &&& r.write == (if sends {
                    Some(old(uart_tx)@[0])
                } else {
                    None
                })
                &&& final(uart_tx)@ == (if sends {
                    old(uart_tx)@.drop_first()
                } else {
                    old(uart_tx)@
                })
                &&& final(self).txing == (sends || (!free && old(self).txing))
            }),
            final(uart_tx).xoff_requested() == old(uart_tx).xoff_requested(),
            r.received == rx is Some,
            final(uart_rx).xoff_requested() == old(uart_rx).xoff_requested(),
            final(uart_rx).control() == old(uart_rx).control(),
            final(uart_rx).data() == (match rx {
                Some(b) => if old(uart_rx).has_room() {
                    old(uart_rx).data().push(b)
                } else {
                    old(uart_rx).data()
                },
                None => old(uart_rx).data(),
            }),
    {
        if tx_done {
            self.txing = false;
        }
        let mut write = None;
        if !self.txing {
            write = uart_tx.dequeue();
            if write.is_some() {
                self.txing = true;
            }
        }
        match rx {
            Some(b) => {
                let _ = uart_rx.enqueue(b);
                UartStep { write, received: true }
            },
            None => UartStep { write, received: false },
        }
    }
}

} // verus!
