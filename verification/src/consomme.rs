//! Sockets of the user mode network, bound to a driver that can change.

use vstd::prelude::*;

verus! {

/// The driver that sockets are bound to.
#[derive(Debug)]
pub struct OsSockets<T> {
    driver: Option<T>,
    driver_seq: u64,
}

/// A socket, and the driver that it is bound to.
#[derive(Debug)]
pub struct OsSocket<S> {
    socket: Option<S>,
    driver_seq: u64,
}

/// How a socket can be used.
#[derive(Debug)]
pub enum SocketStep<S> {
    /// It is gone.
    NotConnected,
    /// As it is.
    Ready,
    /// After it is bound to the current driver.
    Rebind(S),
    /// Not at all: there is no driver, and the socket is gone.
    NoDriver,
}

impl<T> OsSockets<T> {
    /// The driver.
    pub closed spec fn view(&self) -> Option<T> {
        self.driver
    }

    /// How often the driver was replaced.
    pub closed spec fn seq(&self) -> u64 {
        self.driver_seq
    }

    /// Sockets with a driver.
    pub fn new(driver: T) -> (r: OsSockets<T>)
        ensures
            r@ == Some(driver),
            r.seq() == 0,
    {
        OsSockets { driver: Some(driver), driver_seq: 0 }
    }

    /// Sockets without a driver.
    pub fn without_driver() -> (r: OsSockets<T>)
        ensures
            r@ is None,
            r.seq() == 0,
    {
        OsSockets { driver: None, driver_seq: 0 }
    }

    /// Replaces the driver. Every socket is bound to it when it is used next.
    pub fn update_driver(&mut self, driver: T)
        requires
            old(self).seq() < u64::MAX,
        ensures
            final(self)@ == Some(driver),
            final(self).seq() == old(self).seq() + 1,
    {
        self.driver = Some(driver);
        self.driver_seq = self.driver_seq + 1;
    }

    /// How often the driver was replaced.
    pub fn driver_seq(&self) -> (r: u64)
        ensures
            r == self.seq(),
    {
        self.driver_seq
    }

    /// The driver to bind a socket to, if there is one.
    pub fn driver(&self) -> (r: Option<&T>)
        ensures
            match r {
                Some(driver) => self@ == Some(*driver),
                None => self@ is None,
            },
    {
        match &self.driver {
            Some(driver) => Some(driver),
            None => None,
        }
    }

    /// A new socket that is bound to the current driver.
    pub fn adopt<S>(&self, socket: S) -> (r: OsSocket<S>)
        ensures
            r@ == Some(socket),
            r.seq() == self.seq(),
    {
        OsSocket { socket: Some(socket), driver_seq: self.driver_seq }
    }

    /// How a socket can be used.
    pub open spec fn step_of<S>(&self, s: OsSocket<S>) -> SocketStep<S> {
        match s@ {
            None => SocketStep::NotConnected,
            Some(socket) => if s.seq() == self.seq() {
                SocketStep::Ready
            } else if self@ is Some {
                SocketStep::Rebind(socket)
            } else {
                SocketStep::NoDriver
            },
        }
    }

    /// How a socket can be used. One that is bound to an earlier driver is
    /// taken out, to be bound to the current one.
    pub fn socket<S>(&self, s: &mut OsSocket<S>) -> (r: SocketStep<S>)
        ensures
            r == self.step_of(*old(s)),
            final(s).seq() == old(s).seq(),
            final(s)@ == (if r == SocketStep::<S>::Ready {
                old(s)@
            } else {
                None
            }),
    {
        if s.socket.is_none() {
            return SocketStep::NotConnected;
        }
        if s.driver_seq == self.driver_seq {
            return SocketStep::Ready;
        }
        let socket: S = s.socket.take().unwrap();
        if self.driver.is_none() {
            return SocketStep::NoDriver;
        }
        SocketStep::Rebind(socket)
    }

    /// Puts a socket back that was bound to the current driver.
    pub fn rebound<S>(&self, s: &mut OsSocket<S>, socket: S)
        ensures
            final(s)@ == Some(socket),
            final(s).seq() == self.seq(),
    {
        s.driver_seq = self.driver_seq;
        s.socket = Some(socket);
    }
}

impl<S> OsSocket<S> {
    /// The socket.
    pub closed spec fn view(&self) -> Option<S> {
        self.socket
    }

    /// The driver that it is bound to.
    pub closed spec fn seq(&self) -> u64 {
        self.driver_seq
    }

    /// The socket.
    pub fn get(&self) -> (r: Option<&S>)
        ensures
            match r {
                Some(socket) => self@ == Some(*socket),
                None => self@ is None,
            },
    {
        match &self.socket {
            Some(socket) => Some(socket),
            None => None,
        }
    }

    /// The socket, to be used.
    pub fn get_mut(&mut self) -> (r: Option<&mut S>)
        ensures
            final(self).seq() == old(self).seq(),
            match r {
                Some(socket) => old(self)@ == Some(*socket) && final(self)@ == Some(
                    *final(socket),
                ),
                None => old(self)@ is None && final(self)@ is None,
            },
    {
        match &mut self.socket {
            Some(socket) => Some(socket),
            None => None,
        }
    }
}

/// Whether an error of a connect only says that it goes on: it would block,
/// or its code is the one for a connect in progress.
pub fn is_connect_incomplete_error(
    would_block: bool,
    raw_os_error: Option<i32>,
    in_progress: i32,
) -> (r: bool)
    ensures
        r == (would_block || raw_os_error == Some(in_progress)),
{
    if would_block {
        return true;
    }
    match raw_os_error {
        Some(code) => code == in_progress,
        None => false,
    }
}

/// A socket that was bound to the current driver is ready; once the driver is
/// replaced, it has to be bound to the new one, and so on whenever it is
/// replaced again.
pub proof fn law_socket_follows_the_driver<T, S>(
    sockets: OsSockets<T>,
    later: OsSockets<T>,
    s: OsSocket<S>,
)
    requires
        s@ is Some,
        s.seq() == sockets.seq(),
        later.seq() > sockets.seq(),
        later@ is Some,
    ensures
        sockets.step_of(s) == SocketStep::<S>::Ready,
        later.step_of(s) == SocketStep::Rebind(s@->0),
{
}

/// What is done with a socket: nothing if it is not connected; it is used as
/// it is if the driver is still the one it was made with; and otherwise it is
/// taken over to the new driver, if there is one.
pub proof fn law_socket_is_used_with_its_driver<T, S>(sockets: OsSockets<T>, s: OsSocket<S>)
    ensures
        sockets.step_of(s) is NotConnected <==> s@ is None,
        sockets.step_of(s) is Ready <==> s@ is Some && s.seq() == sockets.seq(),
        sockets.step_of(s) is NoDriver <==> s@ is Some && s.seq() != sockets.seq() && sockets@
            is None,
        sockets.step_of(s) matches SocketStep::Rebind(socket) ==> s@ == Some(socket) && s.seq()
            != sockets.seq() && sockets@ is Some,
{
}

/// A connection is still being made exactly if the error is that it would
/// block or that it is in progress.
pub proof fn law_incomplete_connection_is_no_failure(
    would_block: bool,
    raw_os_error: Option<i32>,
    in_progress: i32,
    r: bool,
)
    requires
        call_ensures(is_connect_incomplete_error, (would_block, raw_os_error, in_progress), r),
    ensures
        would_block ==> r,
        raw_os_error == Some(in_progress) ==> r,
        r ==> would_block || raw_os_error == Some(in_progress),
{
}

} // verus!
