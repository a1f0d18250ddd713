use vstd::prelude::*;

verus! {

/// Which tasks should be woken after an engine tick.
#[derive(Clone, Copy, Debug, PartialEq, Eq, Structural)]
pub enum Pend {
    Nothing,
    Radio,
    Uart,
    Both,
}

impl Pend {
    /// Does this hint ask for the radio task?
    pub open spec fn wakes_radio(self) -> bool {
        self is Radio || self is Both
    }

    /// Does this hint ask for the UART task?
    pub open spec fn wakes_uart(self) -> bool {
        self is Uart || self is Both
    }

    /// The hint that wakes exactly the given tasks.
    pub open spec fn from_flags(radio: bool, uart: bool) -> Pend {
        if radio && uart {
            Pend::Both
        } else if radio {
            Pend::Radio
        } else if uart {
            Pend::Uart
        } else {
            Pend::Nothing
        }
    }

    /// Combines two hints: the result wakes every task that either one wakes.
    pub fn plus(self, other: Self) -> (r: Self)
        ensures
            r == Pend::from_flags(
                self.wakes_radio() || other.wakes_radio(),
                self.wakes_uart() || other.wakes_uart(),
            ),
            r.wakes_radio() == (self.wakes_radio() || other.wakes_radio()),
            r.wakes_uart() == (self.wakes_uart() || other.wakes_uart()),
    {
        match (self, other) {
            (Pend::Nothing, o) => o,
            (s, Pend::Nothing) => s,
            (Pend::Both, _) => Pend::Both,
            (_, Pend::Both) => Pend::Both,
            (Pend::Radio, Pend::Radio) => Pend::Radio,
            (Pend::Uart, Pend::Uart) => Pend::Uart,
            (Pend::Radio, Pend::Uart) => Pend::Both,
            (Pend::Uart, Pend::Radio) => Pend::Both,
        }
    }
}

impl core::ops::Add for Pend {
    type Output = Self;

    fn add(self, other: Self) -> (r: Self)
        ensures
            r == Pend::from_flags(
                self.wakes_radio() || other.wakes_radio(),
                self.wakes_uart() || other.wakes_uart(),
            ),
    {
        self.plus(other)
    }
}

impl vstd::std_specs::ops::AddSpecImpl for Pend {
    open spec fn obeys_add_spec() -> bool {
        true
    }

    open spec fn add_req(self, rhs: Pend) -> bool {
        true
    }

    open spec fn add_spec(self, rhs: Pend) -> Pend {
        Pend::from_flags(
            self.wakes_radio() || rhs.wakes_radio(),
            self.wakes_uart() || rhs.wakes_uart(),
        )
    }
}

impl core::ops::AddAssign for Pend {
    fn add_assign(&mut self, other: Self)
        ensures
            *final(self) == Pend::from_flags(
                old(self).wakes_radio() || other.wakes_radio(),
                old(self).wakes_uart() || other.wakes_uart(),
            ),
    {
        *self = self.plus(other);
    }
}

} // verus!
