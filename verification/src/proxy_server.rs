//! The supervisor of the engine: which port it listens on, whether it
//! runs, and what a restart keeps. Binding the port, running the accept
//! loop and sending the stop signal are the caller's part; the supervisor
//! is told how they went.

use crate::server::{PrintMode, Server, ServerBuilder};
use crate::state::{State, STORE_CAPACITY};
use crate::store::{cache_capacity, drawn_from, no_entries, settled};
use vstd::prelude::*;
use vstd::string::StringExecFns;

verus! {

/// The lowest port that the engine listens on.
pub const MIN_PORT: u16 = 1024;

/// The supervisor of one engine.
pub struct ProxyServer {
    /// The port that the engine listens on; zero while it does not run.
    pub current_port: u16,
    /// The engine, from the moment its port is bound.
    pub server: Option<Server>,
    /// Whether the caller holds the handle that stops the accept loop.
    pub stop_sender: bool,
    /// The state of the engine that was stopped last.
    pub old_state: Option<State>,
}

/// What is answered for a port below `MIN_PORT`.
pub open spec fn port_error() -> Seq<char> {
    "port is error"@
}

/// What is answered where the port cannot be bound.
pub open spec fn port_occupied() -> Seq<char> {
    "Please check if the port is occupied."@
}

/// What is answered where the stop signal finds no receiver.
pub open spec fn receiver_dropped() -> Seq<char> {
    "Failed to send stop signal: receiver dropped"@
}

/// Checks a port before anything is bound: ports below `MIN_PORT` are
/// refused.
pub fn setting_port(port: u16) -> (r: Result<(), String>)
    ensures
        port < MIN_PORT ==> (r matches Err(e) && e@ == port_error()),
        port >= MIN_PORT ==> r is Ok,
{
    if port < MIN_PORT {
        Err(String::from_str("port is error"))
    } else {
        Ok(())
    }
}

impl ProxyServer {
    /// A supervisor whose engine does not run.
    pub fn new() -> (r: Self)
        ensures
            r.current_port == 0,
            r.server is None,
            !r.stop_sender,
            r.old_state is None,
    {
        ProxyServer { current_port: 0, server: None, stop_sender: false, old_state: None }
    }

    /// The state of the engine that runs.
    pub fn get_state(&self) -> (r: Option<&State>)
        ensures
            match self.server {
                Some(s) => r == Some(&s.state),
                None => r is None,
            },
    {
        match &self.server {
            Some(s) => Some(&s.state),
            None => None,
        }
    }

    /// Whether a restart on `port` has anything to do: not where the engine
    /// runs on that port already.
    pub fn needs_restart(&self, port: u16) -> (r: bool)
        ensures
            r == !(self.current_port == port && self.server is Some),
    {
        !(self.current_port == port && self.server.is_some())
    }

    /// Takes note of a stop. `delivered` says how the stop signal went: it
    /// was taken, it found no receiver, or there was no handle to send it
    /// with. Where there was a handle, the engine is given up, and its state
    /// is kept for the next start.
    pub fn stop_previous_server(&mut self, delivered: Option<bool>) -> (r: Result<(), String>)
        ensures
            delivered is None ==> r is Ok && *final(self) == *old(self),
            delivered is Some ==> {
                &&& final(self).server is None
                &&& final(self).current_port == 0
                &&& !final(self).stop_sender
                &&& match old(self).server {
                    Some(s) => final(self).old_state == Some(s.state),
                    None => final(self).old_state is None,
                }
            },
            delivered == Some(true) ==> r is Ok,
            delivered == Some(false) ==> (r matches Err(e) && e@ == receiver_dropped()),
    {
        let delivered = match delivered {
            Some(d) => d,
            None => {
                return Ok(());
            },
        };
        self.old_state = match self.server.take() {
            Some(s) => Some(s.state),
            None => None,
        };
        self.current_port = 0;
        self.stop_sender = false;
        if delivered {
            Ok(())
        } else {
            Err(String::from_str("Failed to send stop signal: receiver dropped"))
        }
    }

    /// Makes the engine for a port. `bound` says whether the caller could
    /// bind the port. The new engine takes over the records of the engine
    /// that was stopped last, each under its gid, and goes on with its
    /// gids.
    pub fn start_new_server(&mut self, bound: bool, temp_dir: String) -> (r: Result<(), String>)
        ensures
            !bound ==> (r matches Err(e) && e@ == port_occupied()) && *final(self) == *old(self),
            bound ==> {
                &&& r is Ok
                &&& final(self).server is Some
                &&& final(self).server->0.temp_dir == temp_dir
                &&& final(self).server->0.state.print_mode == PrintMode::Oneline
                &&& final(self).server->0.state.paused_traffic@.len() == 0
                &&& final(self).server->0.state.monitor_traffic@.len() == 0
                &&& cache_capacity(final(self).server->0.state.traffics) == STORE_CAPACITY
                &&& final(self).current_port == old(self).current_port
                &&& final(self).stop_sender == old(self).stop_sender
                &&& match old(self).old_state {
                    Some(prev) => {
                        &&& final(self).old_state is Some
                        &&& final(self).server->0.state.next_id == prev.next_id
                        &&& final(self).server->0.state.events@ == prev.events@
                        &&& prev.wf() ==> final(self).server->0.state.wf()
                        &&& drawn_from(
                            final(self).server->0.state.entries(),
                            no_entries(),
                            prev.entries(),
                        )
                        &&& final(self).old_state->0.traffics == prev.traffics
                        &&& settled(prev.traffics) && prev.entries().len() <= STORE_CAPACITY
                            ==> final(self).server->0.state.entries() == prev.entries()
                            && settled(final(self).server->0.state.traffics)
                    },
                    None => {
                        &&& final(self).old_state is None
                        &&& final(self).server->0.state.next_id == 0
                        &&& final(self).server->0.state.events@.len() == 0
                        &&& final(self).server->0.state.entries() == no_entries()
                        &&& settled(final(self).server->0.state.traffics)
                        &&& final(self).server->0.state.wf()
                    },
                }
            },
    {
        if !bound {
            return Err(String::from_str("Please check if the port is occupied."));
        }
        let mut server = ServerBuilder::new().print_mode(PrintMode::Oneline).build(temp_dir);
        match self.old_state.take() {
            Some(mut prev) => {
                server.state.migrate_from(&mut prev);
                self.old_state = Some(prev);
            },
            None => {},
        }
        self.server = Some(server);
        Ok(())
    }

    /// Takes note of how the start of the accept loop went: the engine
    /// listens on `port` from now on, or is given up with the words of the
    /// failure.
    pub fn server_started(&mut self, port: u16, started: Result<(), String>) -> (r: Result<
        String,
        String,
    >)
        ensures
            started is Ok ==> (r matches Ok(text) && text@ == "Success"@) && final(self).current_port
                == port && final(self).stop_sender && final(self).server == old(self).server,
            started matches Err(why) ==> (r matches Err(text) && text@
                == "Error: Failed to start server: "@ + why@) && final(self).server is None
                    && final(self).current_port == old(self).current_port
                    && final(self).stop_sender == old(self).stop_sender,
            final(self).old_state == old(self).old_state,
    {
        match started {
            Ok(_) => {
                self.stop_sender = true;
                self.current_port = port;
                Ok(String::from_str("Success"))
            },
            Err(why) => {
                self.server = None;
                let mut text = String::from_str("Error: Failed to start server: ");
                text.append(why.as_str());
                Err(text)
            },
        }
    }

    /// Stops the engine for a while: a stop whose kept state the next
    /// `resume_server` starts from.
    pub fn pause_server(&mut self, delivered: Option<bool>) -> (r: Result<(), String>)
        ensures
            delivered is None ==> r is Ok && *final(self) == *old(self),
            delivered is Some ==> {
                &&& final(self).server is None
                &&& final(self).current_port == 0
                &&& !final(self).stop_sender
                &&& match old(self).server {
                    Some(s) => final(self).old_state == Some(s.state),
                    None => final(self).old_state is None,
                }
            },
            delivered == Some(true) ==> r is Ok,
            delivered == Some(false) ==> (r matches Err(e) && e@ == receiver_dropped()),
    {
        self.stop_previous_server(delivered)
    }

    /// Ends the engine: the supervisor holds no engine, no port and no
    /// handle afterwards, however the stop went. The state of an engine
    /// that was stopped is kept.
    pub fn shutdown_server(&mut self, delivered: Option<bool>) -> (r: Result<(), String>)
        ensures
            final(self).server is None,
            final(self).current_port == 0,
            !final(self).stop_sender,
            delivered == Some(false) ==> (r matches Err(e) && e@ == receiver_dropped()),
            !(delivered == Some(false)) ==> r is Ok,
            delivered is None ==> final(self).old_state == old(self).old_state,
            delivered is Some ==> match old(self).server {
                Some(s) => final(self).old_state == Some(s.state),
                None => final(self).old_state is None,
            },
    {
        let stopped = self.stop_previous_server(delivered);
        assert(delivered is None || delivered == Some(true) || delivered == Some(false));
        match stopped {
            Ok(_) => {
                self.server = None;
                self.current_port = 0;
                self.stop_sender = false;
                Ok(())
            },
            Err(e) => Err(e),
        }
    }

    /// Starts the engine again after a pause: a start from the state that
    /// the pause kept.
    pub fn resume_server(&mut self, bound: bool, temp_dir: String) -> (r: Result<(), String>)
        ensures
            !bound ==> (r matches Err(e) && e@ == port_occupied()) && *final(self) == *old(self),
            bound ==> {
                &&& r is Ok
                &&& final(self).server is Some
                &&& final(self).server->0.temp_dir == temp_dir
                &&& final(self).current_port == old(self).current_port
                &&& final(self).stop_sender == old(self).stop_sender
                &&& match old(self).old_state {
                    Some(prev) => {
                        &&& final(self).old_state is Some
                        &&& final(self).server->0.state.next_id == prev.next_id
                        &&& final(self).server->0.state.events@ == prev.events@
                        &&& prev.wf() ==> final(self).server->0.state.wf()
                        &&& drawn_from(
                            final(self).server->0.state.entries(),
                            no_entries(),
                            prev.entries(),
                        )
                        &&& settled(prev.traffics) && prev.entries().len() <= STORE_CAPACITY
                            ==> final(self).server->0.state.entries() == prev.entries()
                    },
                    None => {
                        &&& final(self).old_state is None
                        &&& final(self).server->0.state.next_id == 0
                        &&& final(self).server->0.state.entries() == no_entries()
                        &&& final(self).server->0.state.wf()
                    },
                }
            },
    {
        self.start_new_server(bound, temp_dir)
    }

    /// Gives the engine up without keeping its state.
    pub fn stop_server(&mut self)
        ensures
            old(self).stop_sender ==> final(self).server is None && final(self).current_port == 0
                && !final(self).stop_sender && final(self).old_state == old(self).old_state,
            !old(self).stop_sender ==> *final(self) == *old(self),
    {
        if self.stop_sender {
            self.stop_sender = false;
            self.server = None;
            self.current_port = 0;
        }
    }
}

} // verus!
