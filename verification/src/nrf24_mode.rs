//! The operating modes of the radio.
//!
//! The radio is in one of three modes, and the handle of the device has a
//! type of its own in each. A change of mode takes the handle out of the
//! machine, hands it to the operation of the driver that makes the change,
//! and puts what the operation returns back in: the handle is never copied
//! and never left out.

use vstd::prelude::*;

verus! {

/// The radio in one of its modes, with the handle `S` of a device in standby,
/// `T` of one that transmits, or `R` of one that receives.
#[derive(Debug)]
pub enum NRF24Mode<S, T, R> {
    Standby(S),
    Tx(T),
    Rx(R),
}

impl<S, T, R> NRF24Mode<S, T, R> {
    /// The radio brought to standby by operations that compute `leave_tx` and
    /// `leave_rx`.
    pub open spec fn spec_to_standby<E>(
        self,
        leave_tx: spec_fn(T) -> Result<S, E>,
        leave_rx: spec_fn(R) -> S,
    ) -> Result<Self, E> {
        match self {
            NRF24Mode::Standby(s) => Ok(NRF24Mode::Standby(s)),
            NRF24Mode::Tx(t) => match leave_tx(t) {
                Ok(s) => Ok(NRF24Mode::Standby(s)),
                Err(e) => Err(e),
            },
            NRF24Mode::Rx(x) => Ok(NRF24Mode::Standby(leave_rx(x))),
        }
    }

    /// The radio brought to transmit by operations that compute `leave_rx`
    /// and `enter_tx`.
    pub open spec fn spec_to_tx<E>(
        self,
        leave_rx: spec_fn(R) -> S,
        enter_tx: spec_fn(S) -> Result<T, E>,
    ) -> Result<Self, E> {
        match self {
            NRF24Mode::Standby(s) => match enter_tx(s) {
                Ok(t) => Ok(NRF24Mode::Tx(t)),
                Err(e) => Err(e),
            },
            NRF24Mode::Tx(t) => Ok(NRF24Mode::Tx(t)),
            NRF24Mode::Rx(x) => match enter_tx(leave_rx(x)) {
                Ok(t) => Ok(NRF24Mode::Tx(t)),
                Err(e) => Err(e),
            },
        }
    }

    /// The radio brought to receive by operations that compute `leave_tx` and
    /// `enter_rx`.
    pub open spec fn spec_to_rx<E>(
        self,
        leave_tx: spec_fn(T) -> Result<S, E>,
        enter_rx: spec_fn(S) -> Result<R, E>,
    ) -> Result<Self, E> {
        match self {
            NRF24Mode::Standby(s) => match enter_rx(s) {
                Ok(x) => Ok(NRF24Mode::Rx(x)),
                Err(e) => Err(e),
            },
            NRF24Mode::Tx(t) => match leave_tx(t) {
                Ok(s) => match enter_rx(s) {
                    Ok(x) => Ok(NRF24Mode::Rx(x)),
                    Err(e) => Err(e),
                },
                Err(e) => Err(e),
            },
            NRF24Mode::Rx(x) => Ok(NRF24Mode::Rx(x)),
        }
    }

    /// Brings the radio to standby.
    ///
    /// A radio in standby is returned as it is. One that transmits is handed
    /// to `leave_tx`, one that receives to `leave_rx`, and what they return is
    /// the radio in standby. Where `leave_tx` fails, so does the change, with
    /// the error of `leave_tx`.
    pub fn to_standby<E, FT, FR>(self, leave_tx: FT, leave_rx: FR) -> (r: Result<Self, E>) where
        FT: FnOnce(T) -> Result<S, E>,
        FR: FnOnce(R) -> S,

        requires
            self matches NRF24Mode::Tx(t) ==> leave_tx.requires((t,)),
            self matches NRF24Mode::Rx(x) ==> leave_rx.requires((x,)),
        ensures
            r matches Ok(m) ==> m is Standby,
            match self {
                NRF24Mode::Standby(s) => r == Ok::<Self, E>(NRF24Mode::Standby(s)),
                NRF24Mode::Tx(t) => match r {
                    Ok(m) => m matches NRF24Mode::Standby(s) && leave_tx.ensures((t,), Ok(s)),
                    Err(e) => leave_tx.ensures((t,), Err(e)),
                },
                NRF24Mode::Rx(x) => r matches Ok(NRF24Mode::Standby(s)) && leave_rx.ensures(
                    (x,),
                    s,
                ),
            },
            forall|f: spec_fn(T) -> Result<S, E>, g: spec_fn(R) -> S|
                computes(leave_tx, f) && computes(leave_rx, g) ==> r == #[trigger] self.spec_to_standby(
                    f,
                    g,
                ),
    {
        match self {
            NRF24Mode::Standby(s) => Ok(NRF24Mode::Standby(s)),
            NRF24Mode::Tx(t) => match leave_tx(t) {
                Ok(s) => Ok(NRF24Mode::Standby(s)),
                Err(e) => Err(e),
            },
            NRF24Mode::Rx(x) => Ok(NRF24Mode::Standby(leave_rx(x))),
        }
    }

    /// Brings the radio to transmit.
    ///
    /// A radio that transmits is returned as it is. One in standby is handed
    /// to `enter_tx`. One that receives is first brought to standby by
    /// `leave_rx`, and what that returns is handed to `enter_tx`. Where
    /// `enter_tx` fails, so does the change, with the error of `enter_tx`.
    pub fn to_tx<E, FR, FT>(self, leave_rx: FR, enter_tx: FT) -> (r: Result<Self, E>) where
        FR: FnOnce(R) -> S,
        FT: FnOnce(S) -> Result<T, E>,

        requires
            self matches NRF24Mode::Standby(s) ==> enter_tx.requires((s,)),
            self matches NRF24Mode::Rx(x) ==> leave_rx.requires((x,)) && forall|s: S|
                leave_rx.ensures((x,), s) ==> enter_tx.requires((s,)),
        ensures
            r matches Ok(m) ==> m is Tx,
            match self {
                NRF24Mode::Standby(s) => entered_tx(enter_tx, s, r),
                NRF24Mode::Tx(t) => r == Ok::<Self, E>(NRF24Mode::Tx(t)),
                NRF24Mode::Rx(x) => exists|s: S|
                    leave_rx.ensures((x,), s) && entered_tx(enter_tx, s, r),
            },
            forall|f: spec_fn(R) -> S, g: spec_fn(S) -> Result<T, E>|
                computes(leave_rx, f) && computes(enter_tx, g) ==> r == #[trigger] self.spec_to_tx(
                    f,
                    g,
                ),
    {
        match self {
            NRF24Mode::Standby(s) => match enter_tx(s) {
                Ok(t) => Ok(NRF24Mode::Tx(t)),
                Err(e) => Err(e),
            },
            NRF24Mode::Tx(t) => Ok(NRF24Mode::Tx(t)),
            NRF24Mode::Rx(x) => {
                let s = leave_rx(x);
                let r = match enter_tx(s) {
                    Ok(t) => Ok(NRF24Mode::Tx(t)),
                    Err(e) => Err(e),
                };
                assert(leave_rx.ensures((x,), s) && entered_tx(enter_tx, s, r));
                r
            },
        }
    }

    /// Brings the radio to receive.
    ///
    /// A radio that receives is returned as it is. One in standby is handed
    /// to `enter_rx`. One that transmits is first brought to standby by
    /// `leave_tx`, and what that returns is handed to `enter_rx`. Where
    /// `leave_tx` or `enter_rx` fails, so does the change, with the error of
    /// the one that failed.
    pub fn to_rx<E, FT, FR>(self, leave_tx: FT, enter_rx: FR) -> (r: Result<Self, E>) where
        FT: FnOnce(T) -> Result<S, E>,
        FR: FnOnce(S) -> Result<R, E>,

        requires
            self matches NRF24Mode::Standby(s) ==> enter_rx.requires((s,)),
            self matches NRF24Mode::Tx(t) ==> leave_tx.requires((t,)) && forall|s: S|
                leave_tx.ensures((t,), Ok(s)) ==> enter_rx.requires((s,)),
        ensures
            r matches Ok(m) ==> m is Rx,
            match self {
                NRF24Mode::Standby(s) => entered_rx(enter_rx, s, r),
                NRF24Mode::Tx(t) => {
                    ||| r matches Err(e) && leave_tx.ensures((t,), Err(e))
                    ||| exists|s: S|
                        leave_tx.ensures((t,), Ok(s)) && entered_rx(enter_rx, s, r)
                },
                NRF24Mode::Rx(x) => r == Ok::<Self, E>(NRF24Mode::Rx(x)),
            },
            forall|f: spec_fn(T) -> Result<S, E>, g: spec_fn(S) -> Result<R, E>|
                computes(leave_tx, f) && computes(enter_rx, g) ==> r == #[trigger] self.spec_to_rx(
                    f,
                    g,
                ),
    {
        match self {
            NRF24Mode::Standby(s) => match enter_rx(s) {
                Ok(x) => Ok(NRF24Mode::Rx(x)),
                Err(e) => Err(e),
            },
            NRF24Mode::Tx(t) => match leave_tx(t) {
                Ok(s) => {
                    let r = match enter_rx(s) {
                        Ok(x) => Ok(NRF24Mode::Rx(x)),
                        Err(e) => Err(e),
                    };
                    assert(leave_tx.ensures((t,), Ok(s)) && entered_rx(enter_rx, s, r));
                    r
                },
                Err(e) => Err(e),
            },
            NRF24Mode::Rx(x) => Ok(NRF24Mode::Rx(x)),
        }
    }

    /// The handle of the device, if the radio is in standby.
    pub fn standby_ref(&mut self) -> (r: Option<&mut S>)
        ensures
            match *old(self) {
                NRF24Mode::Standby(s) => r matches Some(d) && *d == s && *final(self)
                    == NRF24Mode::<S, T, R>::Standby(*final(d)),
                _ => r is None && *final(self) == *old(self),
            },
    {
        if let NRF24Mode::Standby(dev_ref) = self {
            Some(dev_ref)
        } else {
            None
        }
    }

    /// The handle of the device, if the radio transmits.
    pub fn tx_ref(&mut self) -> (r: Option<&mut T>)
        ensures
            match *old(self) {
                NRF24Mode::Tx(t) => r matches Some(d) && *d == t && *final(self)
                    == NRF24Mode::<S, T, R>::Tx(*final(d)),
                _ => r is None && *final(self) == *old(self),
            },
    {
        if let NRF24Mode::Tx(dev_ref) = self {
            Some(dev_ref)
        } else {
            None
        }
    }

    /// The handle of the device, if the radio receives.
    pub fn rx_ref(&mut self) -> (r: Option<&mut R>)
        ensures
            match *old(self) {
                NRF24Mode::Rx(x) => r matches Some(d) && *d == x && *final(self)
                    == NRF24Mode::<S, T, R>::Rx(*final(d)),
                _ => r is None && *final(self) == *old(self),
            },
    {
        if let NRF24Mode::Rx(dev_ref) = self {
            Some(dev_ref)
        } else {
            None
        }
    }
}

/// Whether the operation `op` computes `f`: whatever it is handed, it returns
/// what `f` gives for it.
pub open spec fn computes<A, B, F: FnOnce(A) -> B>(op: F, f: spec_fn(A) -> B) -> bool {
    forall|a: A, b: B| op.ensures((a,), b) ==> b == f(a)
}

/// From standby to transmit, from there to receive, and back to standby:
/// where no operation fails, the radio is in each of these modes in turn,
/// and the handle it holds in each is the one that it began with, as the
/// operations passed it on.
pub proof fn lemma_round_of_modes<S, T, R, E>(
    s: S,
    enter_tx: spec_fn(S) -> Result<T, E>,
    leave_tx: spec_fn(T) -> Result<S, E>,
    enter_rx: spec_fn(S) -> Result<R, E>,
    leave_rx: spec_fn(R) -> S,
)
    requires
        enter_tx(s) is Ok,
        leave_tx(enter_tx(s)->Ok_0) is Ok,
        enter_rx(leave_tx(enter_tx(s)->Ok_0)->Ok_0) is Ok,
    ensures
        ({
            let t = enter_tx(s)->Ok_0;
            let x = enter_rx(leave_tx(t)->Ok_0)->Ok_0;
            let start = NRF24Mode::<S, T, R>::Standby(s);
            let sending = NRF24Mode::<S, T, R>::Tx(t);
            let receiving = NRF24Mode::<S, T, R>::Rx(x);
            &&& start.spec_to_tx(leave_rx, enter_tx) == Ok::<NRF24Mode<S, T, R>, E>(sending)
            &&& sending.spec_to_rx(leave_tx, enter_rx) == Ok::<NRF24Mode<S, T, R>, E>(receiving)
            &&& receiving.spec_to_standby(leave_tx, leave_rx) == Ok::<NRF24Mode<S, T, R>, E>(
                NRF24Mode::Standby(leave_rx(x)),
            )
        }),
{
}

/// A change to the mode that the radio is in returns the radio as it is,
/// with the handle that it holds, whatever the operations are.
pub proof fn lemma_change_to_same_mode<S, T, R, E>(
    m: NRF24Mode<S, T, R>,
    enter_tx: spec_fn(S) -> Result<T, E>,
    leave_tx: spec_fn(T) -> Result<S, E>,
    enter_rx: spec_fn(S) -> Result<R, E>,
    leave_rx: spec_fn(R) -> S,
)
    ensures
        m is Standby ==> m.spec_to_standby(leave_tx, leave_rx) == Ok::<NRF24Mode<S, T, R>, E>(m),
        m is Tx ==> m.spec_to_tx(leave_rx, enter_tx) == Ok::<NRF24Mode<S, T, R>, E>(m),
        m is Rx ==> m.spec_to_rx(leave_tx, enter_rx) == Ok::<NRF24Mode<S, T, R>, E>(m),
{
}

/// Whether `r` is what comes of handing the device `s`, in standby, to
/// `enter_tx`: the radio that transmits, with the handle that `enter_tx`
/// returned, or the error of `enter_tx`.
pub open spec fn entered_tx<S, T, R, E, F: FnOnce(S) -> Result<T, E>>(
    enter_tx: F,
    s: S,
    r: Result<NRF24Mode<S, T, R>, E>,
) -> bool {
    match r {
        Ok(m) => m matches NRF24Mode::Tx(t) && enter_tx.ensures((s,), Ok(t)),
        Err(e) => enter_tx.ensures((s,), Err(e)),
    }
}

/// Whether `r` is what comes of handing the device `s`, in standby, to
/// `enter_rx`: the radio that receives, with the handle that `enter_rx`
/// returned, or the error of `enter_rx`.
pub open spec fn entered_rx<S, T, R, E, F: FnOnce(S) -> Result<R, E>>(
    enter_rx: F,
    s: S,
    r: Result<NRF24Mode<S, T, R>, E>,
) -> bool {
    match r {
        Ok(m) => m matches NRF24Mode::Rx(x) && enter_rx.ensures((s,), Ok(x)),
        Err(e) => enter_rx.ensures((s,), Err(e)),
    }
}

} // verus!
