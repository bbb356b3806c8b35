//! The dispatcher: the one owner of the registry, and what it decides for
//! each message that arrives.

use crate::identity::identity_of;
use crate::identity::parse_identity;
use crate::message::encode;
use crate::message::Message;
use crate::message::MessageType;
use crate::message::MessageView;
use crate::registry::Registry;
use vstd::prelude::*;

verus! {

/// What a `Delivery` holds, as mathematical values.
pub struct DeliveryView {
    /// The identities to write to, in the order of the writes.
    pub recipients: Seq<u32>,
    /// The encoded message that each of them gets.
    pub line: Seq<char>,
    /// How many writes have been issued and answered.
    pub issued: nat,
    /// The recipients whose write failed, in the order of the writes.
    pub failed: Seq<u32>,
}

impl DeliveryView {
    /// Whether this is the delivery of `msg` to the connections of
    /// `registry` before its first write: the line is the encoded message,
    /// and every registered identity is a recipient once.
    pub open spec fn is_broadcast<H>(self, registry: Map<u32, H>, msg: MessageView) -> bool {
        &&& self.line == encode(msg)
        &&& self.issued == 0
        &&& self.failed == Seq::<u32>::empty()
        &&& self.recipients.no_duplicates()
        &&& self.recipients.to_set() == registry.dom()
        &&& self.recipients.len() == registry.len()
    }

    /// The recipient of the write that is due, if one is.
    pub open spec fn next_recipient(self) -> Option<u32> {
        if self.issued < self.recipients.len() {
            Some(self.recipients[self.issued as int])
        } else {
            None
        }
    }

    /// The delivery after the write that was due has succeeded or failed.
    pub open spec fn record(self, delivered: bool) -> DeliveryView {
        if self.issued < self.recipients.len() {
            DeliveryView {
                issued: self.issued + 1,
                failed: if delivered {
                    self.failed
                } else {
                    self.failed.push(self.recipients[self.issued as int])
                },
                ..self
            }
        } else {
            self
        }
    }

    /// The delivery after a run of writes with the given outcomes.
    pub open spec fn run(self, outcomes: Seq<bool>) -> DeliveryView
        decreases outcomes.len(),
    {
        if outcomes.len() == 0 {
            self
        } else {
            self.record(outcomes[0]).run(outcomes.drop_first())
        }
    }

    /// The recipients of the writes that are issued while one write after
    /// the other ends with the given outcomes.
    pub open spec fn writes(self, outcomes: Seq<bool>) -> Seq<u32>
        decreases outcomes.len(),
    {
        if outcomes.len() == 0 {
            Seq::empty()
        } else {
            match self.next_recipient() {
                Some(id) => seq![id] + self.record(outcomes[0]).writes(outcomes.drop_first()),
                None => Seq::empty(),
            }
        }
    }
}

/// Whatever the outcomes of the writes, those that are issued go to the
/// recipients that were still due, one write each, in their order, and
/// then none is due.
pub proof fn lemma_writes_reach_all(delivery: DeliveryView, outcomes: Seq<bool>)
    requires
        delivery.issued <= delivery.recipients.len(),
        outcomes.len() == delivery.recipients.len() - delivery.issued,
    ensures
        delivery.writes(outcomes) == delivery.recipients.skip(delivery.issued as int),
        delivery.run(outcomes).issued == delivery.recipients.len(),
        delivery.run(outcomes).recipients == delivery.recipients,
        delivery.run(outcomes).next_recipient() is None,
    decreases outcomes.len(),
{
    if outcomes.len() > 0 {
        let next = delivery.record(outcomes[0]);
        lemma_writes_reach_all(next, outcomes.drop_first());
        assert(delivery.recipients.skip(delivery.issued as int) == seq![
            delivery.recipients[delivery.issued as int],
        ] + delivery.recipients.skip(delivery.issued as int + 1));
    }
}

/// A text message is written once to each registered connection, whether
/// the writes before it succeeded or failed: with as many outcomes as the
/// registry has entries, the writes issued are as many, no identity gets
/// two of them, every registered identity gets one, and none is due after.
pub proof fn lemma_broadcast_writes_once_each<H>(
    registry: Map<u32, H>,
    msg: MessageView,
    delivery: DeliveryView,
    outcomes: Seq<bool>,
)
    requires
        delivery.is_broadcast(registry, msg),
        outcomes.len() == registry.len(),
    ensures
        delivery.writes(outcomes).len() == registry.len(),
        delivery.writes(outcomes).no_duplicates(),
        delivery.writes(outcomes).to_set() == registry.dom(),
        delivery.run(outcomes).next_recipient() is None,
{
    lemma_writes_reach_all(delivery, outcomes);
    assert(delivery.recipients.skip(0) == delivery.recipients);
}

/// A broadcast in progress: one encoded message and the connections that
/// are to get it. The caller writes to the recipient that is due and
/// reports how the write ended; a failed write does not stop the rest.
#[derive(Debug)]
pub struct Delivery {
    recipients: Vec<u32>,
    line: String,
    issued: usize,
    failed: Vec<u32>,
}

impl View for Delivery {
    type V = DeliveryView;

    closed spec fn view(&self) -> DeliveryView {
        DeliveryView {
            recipients: self.recipients@,
            line: self.line@,
            issued: self.issued as nat,
            failed: self.failed@,
        }
    }
}

impl Delivery {
    /// The delivery of `line` to `recipients`, with no write issued yet.
    pub fn new(recipients: Vec<u32>, line: String) -> (delivery: Self)
        ensures
            delivery@ == (DeliveryView {
                recipients: recipients@,
                line: line@,
                issued: 0,
                failed: Seq::empty(),
            }),
    {
        Delivery { recipients, line, issued: 0, failed: Vec::new() }
    }

    /// The encoded message.
    pub fn line(&self) -> (line: &str)
        ensures
            line@ == self@.line,
    {
        self.line.as_str()
    }

    /// The number of writes of the whole delivery.
    pub fn len(&self) -> (len: usize)
        ensures
            len == self@.recipients.len(),
    {
        self.recipients.len()
    }

    /// The number of writes issued and answered so far.
    pub fn issued(&self) -> (issued: usize)
        ensures
            issued == self@.issued,
    {
        self.issued
    }

    /// The recipients whose write failed.
    pub fn failed(&self) -> (failed: &Vec<u32>)
        ensures
            failed@ == self@.failed,
    {
        &self.failed
    }

    /// The recipient of the write that is due, or `None` when every write
    /// has been issued.
    pub fn next_recipient(&self) -> (next: Option<u32>)
        ensures
            next == self@.next_recipient(),
    {
        if self.issued < self.recipients.len() {
            Some(self.recipients[self.issued])
        } else {
            None
        }
    }

    /// Report how the write that was due ended. The next recipient becomes
    /// due whether it succeeded or not.
    pub fn record(&mut self, delivered: bool)
        ensures
            final(self)@ == old(self)@.record(delivered),
    {
        if self.issued < self.recipients.len() {
            if !delivered {
                let id = self.recipients[self.issued];
                self.failed.push(id);
            }
            self.issued = self.issued + 1;
        }
    }
}

/// Why a message could not be applied.
#[derive(Clone, Copy, Debug, PartialEq, Eq, Structural)]
pub enum DispatchError {
    /// An exit whose sender is not an identity.
    NotAnIdentity,
    /// An exit of an identity that is not registered.
    UnknownIdentity(u32),
}

/// What the caller is to do after a message was applied.
#[derive(Debug)]
pub enum Action<H> {
    /// Nothing: the kind is reserved for later use.
    Nothing,
    /// The message reports a malformed line: it is logged, nothing else.
    Log,
    /// The connection has left the registry: its stream is shut down.
    Shutdown { id: u32, handle: H },
    /// The message goes to every registered connection.
    Broadcast(Delivery),
}

/// The registry after a message was applied to it: the exit of an identity
/// takes its entry out, and no other message changes anything.
pub open spec fn registry_after<H>(registry: Map<u32, H>, msg: MessageView) -> Map<u32, H> {
    match (msg.msg_type, identity_of(msg.msg_sender)) {
        (MessageType::ClientExit, Some(id)) => registry.remove(id),
        _ => registry,
    }
}

/// After the exit of an identity the registry does not hold it, and a
/// second exit of the same identity changes nothing.
pub proof fn lemma_exit_removes_once<H>(registry: Map<u32, H>, msg: MessageView, id: u32)
    requires
        msg.msg_type == MessageType::ClientExit,
        identity_of(msg.msg_sender) == Some(id),
    ensures
        !registry_after(registry, msg).contains_key(id),
        registry_after(registry_after(registry, msg), msg) == registry_after(registry, msg),
{
    assert(registry.remove(id).remove(id) == registry.remove(id));
}

/// The dispatcher's state: the registry, which nothing else touches.
pub struct Dispatcher<H> {
    registry: Registry<H>,
}

impl<H> View for Dispatcher<H> {
    type V = Map<u32, H>;

    closed spec fn view(&self) -> Map<u32, H> {
        self.registry@
    }
}

impl<H> Dispatcher<H> {
    /// A dispatcher with an empty registry.
    pub fn new() -> (dispatcher: Self)
        ensures
            dispatcher@ == Map::<u32, H>::empty(),
    {
        Dispatcher { registry: Registry::new() }
    }

    /// The registry, to look at.
    pub fn registry(&self) -> (registry: &Registry<H>)
        ensures
            registry@ == self@,
    {
        &self.registry
    }

    /// Take in the announcement of a new connection: `handle` is registered
    /// under `id`. An entry that stood there before is handed back.
    pub fn register(&mut self, id: u32, handle: H) -> (previous: Option<H>)
        ensures
            final(self)@ == old(self)@.insert(id, handle),
            match previous {
                Some(h) => old(self)@.contains_key(id) && h == old(self)@[id],
                None => !old(self)@.contains_key(id),
            },
    {
        self.registry.insert(id, handle)
    }

    /// Apply one message.
    ///
    /// A login and a list update change nothing and ask for nothing. An
    /// error message is only logged. An exit takes the sender's entry out
    /// of the registry and hands its stream back to be shut down; where the
    /// sender is no identity, or none that is registered, the registry
    /// stays as it is and the error says which. A text message is to be
    /// written, encoded, to every registered connection.
    pub fn apply(&mut self, msg: &Message) -> (result: Result<Action<H>, DispatchError>)
        ensures
            final(self)@ == registry_after(old(self)@, msg@),
            match msg.msg_type {
                MessageType::ClientLogIn | MessageType::ClientListUpdate => result == Ok::<
                    Action<H>,
                    DispatchError,
                >(Action::Nothing),
                MessageType::Error => result == Ok::<Action<H>, DispatchError>(Action::Log),
                MessageType::ClientExit => match identity_of(msg.msg_sender@) {
                    None => result == Err::<Action<H>, DispatchError>(
                        DispatchError::NotAnIdentity,
                    ),
                    Some(id) => {
                        &&& !final(self)@.contains_key(id)
                        &&& if old(self)@.contains_key(id) {
                            result == Ok::<Action<H>, DispatchError>(
                                Action::Shutdown { id, handle: old(self)@[id] },
                            )
                        } else {
                            result == Err::<Action<H>, DispatchError>(
                                DispatchError::UnknownIdentity(id),
                            )
                        }
                    },
                },
                MessageType::TextMessage => {
                    &&& result matches Ok(Action::Broadcast(delivery))
                    &&& delivery@.is_broadcast(old(self)@, msg@)
                },
            },
    {
        match msg.msg_type {
            MessageType::ClientLogIn => Ok(Action::Nothing),
            MessageType::ClientListUpdate => Ok(Action::Nothing),
            MessageType::Error => Ok(Action::Log),
            MessageType::ClientExit => {
                match parse_identity(msg.msg_sender.as_str()) {
                    None => Err(DispatchError::NotAnIdentity),
                    Some(id) => {
                        match self.registry.remove(id) {
                            Some(handle) => Ok(Action::Shutdown { id, handle }),
                            None => {
                                assert(self.registry@ == old(self).registry@);
                                Err(DispatchError::UnknownIdentity(id))
                            },
                        }
                    },
                }
            },
            MessageType::TextMessage => {
                let recipients = self.registry.identities();
                Ok(Action::Broadcast(Delivery::new(recipients, msg.to_string())))
            },
        }
    }
}

} // verus!
