//! The connection to the relay: what is published when, and what waits until then.

use crate::net::backend::MAX_RX_QUEUE_SIZE;
use std::collections::VecDeque;
use vstd::prelude::*;
use vstd::string::StringExecFns;

verus! {


/// What the backend asks of the connection.
#[derive(Debug)]
pub enum Command {
    Send(Vec<u8>),
    Shutdown,
    /// The backend is gone.
    Disconnected,
    /// There is nothing to do.
    Nothing,
}

/// What happens on the connection.
#[derive(Debug)]
pub enum Event {
    Connected,
    /// A peer left; so many remain.
    Closed { peers: usize },
    /// A frame came in; it may be one of our own.
    Message { own: bool, data: Vec<u8> },
    /// A connection could not be made.
    Failed { error: String },
    /// Anything else.
    Other,
}

/// What is to be done.
#[derive(Debug)]
pub enum LinkAction {
    Nothing,
    /// The frames go to the relay, in order.
    Publish(Vec<Vec<u8>>),
    /// The frame goes to the virtual machine.
    Deliver(Vec<u8>),
    Stop,
}

/// The state of the connection.
pub struct LinkState {
    connected: bool,
    error: Option<String>,
    pending: VecDeque<Vec<u8>>,
}

impl LinkState {
    pub closed spec fn is_up(&self) -> bool {
        self.connected
    }

    /// What went wrong last.
    pub closed spec fn fault(&self) -> Option<Seq<char>> {
        match self.error {
            Some(text) => Some(text@),
            None => None,
        }
    }

    /// The frames that wait for a connection.
    pub closed spec fn queue(&self) -> Seq<Vec<u8>> {
        self.pending@
    }

    /// At most so many frames wait.
    pub open spec fn wf(&self) -> bool {
        self.queue().len() <= MAX_RX_QUEUE_SIZE
    }

    /// A connection that is not there yet.
    pub fn new() -> (link: Self)
        ensures
            !link.is_up(),
            link.fault() is None,
            link.queue() == Seq::<Vec<u8>>::empty(),
            link.wf(),
    {
        Self { connected: false, error: None, pending: VecDeque::new() }
    }

    pub fn is_connected(&self) -> (connected: bool)
        ensures
            connected == self.is_up(),
    {
        self.connected
    }

    pub fn error_message(&self) -> (error: Option<String>)
        ensures
            self.fault() is Some <==> error is Some,
            error matches Some(text) ==> self.fault() == Some(text@),
    {
        match &self.error {
            Some(text) => Some(text.clone()),
            None => None,
        }
    }

    /// Notes what went wrong: `what`, and the reason after it.
    pub fn fail(&mut self, what: &str, reason: &str)
        ensures
            final(self).fault() == Some(what@ + ": "@ + reason@),
            final(self).is_up() == old(self).is_up(),
            final(self).queue() == old(self).queue(),
    {
        let mut text = String::from_str(what);
        text.append(": ");
        text.append(reason);
        self.fail_with(text);
    }

    /// Notes what went wrong.
    pub fn fail_with(&mut self, message: String)
        ensures
            final(self).fault() == Some(message@),
            final(self).is_up() == old(self).is_up(),
            final(self).queue() == old(self).queue(),
    {
        self.error = Some(message);
    }

    /// Carries out a command. A frame is published where there is a connection; without one
    /// it waits, and is dropped where too many wait already.
    pub fn on_command(&mut self, command: Command) -> (action: LinkAction)
        requires
            old(self).wf(),
        ensures
            final(self).wf(),
            final(self).is_up() == old(self).is_up(),
            final(self).fault() == old(self).fault(),
            match command {
                Command::Send(data) => {
                    &&& old(self).is_up() ==> final(self).queue() == old(self).queue() && (
                    action matches LinkAction::Publish(frames) && frames@ == seq![data])
                    &&& !old(self).is_up() ==> action is Nothing && final(self).queue() == (if old(
                        self,
                    ).queue().len() < MAX_RX_QUEUE_SIZE {
                        old(self).queue().push(data)
                    } else {
                        old(self).queue()
                    })
                },
                Command::Shutdown => action is Stop && final(self).queue() == old(self).queue(),
                Command::Disconnected => action is Stop && final(self).queue() == old(self).queue(),
                Command::Nothing => action is Nothing && final(self).queue() == old(self).queue(),
            },
    {
        match command {
            Command::Send(data) => {
                if self.connected {
                    let mut frames: Vec<Vec<u8>> = Vec::new();
                    frames.push(data);
                    assert(frames@ =~= seq![data]);
                    LinkAction::Publish(frames)
                } else {
                    if self.pending.len() < MAX_RX_QUEUE_SIZE {
                        self.pending.push_back(data);
                    }
                    LinkAction::Nothing
                }
            },
            Command::Shutdown => LinkAction::Stop,
            Command::Disconnected => LinkAction::Stop,
            Command::Nothing => LinkAction::Nothing,
        }
    }

    /// Takes in what happened. A new connection publishes all that waited and ends the last
    /// error; the connection is lost with the last peer; frames of others are delivered.
    pub fn on_event(&mut self, event: Event) -> (action: LinkAction)
        requires
            old(self).wf(),
        ensures
            final(self).wf(),
            match event {
                Event::Connected => {
                    &&& final(self).is_up()
                    &&& final(self).fault() is None
                    &&& final(self).queue().len() == 0
                    &&& (action matches LinkAction::Publish(frames) && frames@ == old(self).queue())
                },
                Event::Closed { peers } => {
                    &&& final(self).is_up() == (old(self).is_up() && peers != 0)
                    &&& final(self).fault() == old(self).fault()
                    &&& final(self).queue() == old(self).queue()
                    &&& action is Nothing
                },
                Event::Message { own, data } => {
                    &&& final(self).is_up() == old(self).is_up()
                    &&& final(self).fault() == old(self).fault()
                    &&& final(self).queue() == old(self).queue()
                    &&& own ==> action is Nothing
                    &&& !own ==> (action matches LinkAction::Deliver(frame) && frame@ == data@)
                },
                Event::Failed { error } => {
                    &&& final(self).is_up() == old(self).is_up()
                    &&& final(self).fault() == Some("Connection error"@ + ": "@ + error@)
                    &&& final(self).queue() == old(self).queue()
                    &&& action is Nothing
                },
                Event::Other => {
                    &&& final(self).is_up() == old(self).is_up()
                    &&& final(self).fault() == old(self).fault()
                    &&& final(self).queue() == old(self).queue()
                    &&& action is Nothing
                },
            },
    {
        match event {
            Event::Connected => {
                self.connected = true;
                self.error = None;
                LinkAction::Publish(self.flush())
            },
            Event::Closed { peers } => {
                if peers == 0 {
                    self.connected = false;
                }
                LinkAction::Nothing
            },
            Event::Message { own, data } => {
                if own {
                    LinkAction::Nothing
                } else {
                    LinkAction::Deliver(data)
                }
            },
            Event::Failed { error } => {
                self.fail("Connection error", error.as_str());
                LinkAction::Nothing
            },
            Event::Other => LinkAction::Nothing,
        }
    }

    /// Takes out all frames that wait, in order.
    fn flush(&mut self) -> (frames: Vec<Vec<u8>>)
        ensures
            frames@ == old(self).queue(),
            final(self).queue().len() == 0,
            final(self).is_up() == old(self).is_up(),
            final(self).fault() == old(self).fault(),
    {
        let mut frames: Vec<Vec<u8>> = Vec::new();
        let ghost all = self.pending@;
        assert(frames@ + self.pending@ =~= all);
        while self.pending.len() > 0
            invariant
                frames@ + self.pending@ == all,
                all == old(self).queue(),
                self.is_up() == old(self).is_up(),
                self.fault() == old(self).fault(),
            decreases self.pending@.len(),
        {
            let ghost before = self.pending@;
            match self.pending.pop_front() {
                Some(data) => {
                    frames.push(data);
                    assert(frames@ + self.pending@ =~= all);
                },
                None => {},
            }
        }
        assert(frames@ =~= all);
        frames
    }

    /// What the start of the network is told at this point: that it succeeded, that it
    /// failed, or nothing yet.
    pub fn start_outcome(&self) -> (outcome: Option<Result<(), String>>)
        ensures
            self.is_up() ==> outcome == Some(Ok::<(), String>(())),
            !self.is_up() && self.fault() is None ==> outcome is None,
            !self.is_up() && self.fault() is Some ==> (outcome matches Some(Err(text)) && self.fault()
                == Some(text@)),
    {
        if self.connected {
            return Some(Ok(()));
        }
        match &self.error {
            Some(text) => Some(Err(text.clone())),
            None => None,
        }
    }
}

} // verus!
