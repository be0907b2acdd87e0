//! Local and cloud MQTT broker model: online state per broker, retained
//! payloads per state topic and a per-client inbox, so that reconnect
//! semantics can be exercised. It captures the behaviour that local-first
//! scenarios depend on, not the MQTT protocol itself.

use vstd::prelude::*;

use crate::strmap::{clone_nested_values, clone_values, nested_value_views, value_views, StrMap};
use crate::text::{concat2, lemma_split_on_nonempty, push_str, split_char, split_on, str_eq, to_owned};
use crate::value::{Value, ValueView};

verus! {

/// Errors of publishing through the broker model.
#[derive(Debug, PartialEq, Eq)]
pub enum MqttError {
    /// The target broker is offline at publish time.
    BrokerOffline(String),
    /// The topic does not have the `.../device/<id>/command` shape.
    InvalidCommandTopic(String),
}

impl MqttError {
    /// The human-readable message of the error.
    pub fn message(&self) -> (m: String)
        ensures
            match self {
                MqttError::BrokerOffline(b) => m@ == "broker "@ + b@ + " is offline"@,
                MqttError::InvalidCommandTopic(t) => m@ == "topic is not a device command topic: "@
                    + t@,
            },
    {
        match self {
            MqttError::BrokerOffline(b) => {
                let mut m = concat2("broker ", b.as_str());
                push_str(&mut m, " is offline");
                m
            },
            MqttError::InvalidCommandTopic(t) => concat2(
                "topic is not a device command topic: ",
                t.as_str(),
            ),
        }
    }
}

/// The device id of a `.../device/<id>/command` topic: the last piece is
/// `command`, the piece two before it is `device`, and the piece between
/// them, the id, is not empty.
pub open spec fn command_topic_device_id(topic: Seq<char>) -> Option<Seq<char>> {
    let parts = split_on(topic, '/');
    let n = parts.len();
    if n < 3 || parts[n - 1] != "command"@ || parts[n - 3] != "device"@ || parts[n - 2].len() == 0 {
        None
    } else {
        Some(parts[n - 2])
    }
}

/// The state topic mirroring a `.../command` topic.
pub open spec fn state_topic_of(topic: Seq<char>) -> Option<Seq<char>> {
    if topic.len() >= 8 && topic.subrange(topic.len() - 8, topic.len() as int) == "/command"@ {
        Some(topic.subrange(0, topic.len() - 8) + "/state"@)
    } else {
        None
    }
}

/// Extracts the device id from a `.../device/<id>/command` topic.
pub fn device_id_from_command_topic(topic: &str) -> (r: Option<String>)
    ensures
        match r {
            Some(id) => command_topic_device_id(topic@) == Some(id@),
            None => command_topic_device_id(topic@) is None,
        },
{
    let parts = split_char(topic, '/');
    let ghost ps = parts@.map_values(|p: String| p@);
    proof {
        lemma_split_on_nonempty(topic@, '/');
    }
    let n = parts.len();
    if n < 3 {
        return None;
    }
    assert(ps[n - 1] == parts@[n - 1]@);
    assert(ps[n - 2] == parts@[n - 2]@);
    assert(ps[n - 3] == parts@[n - 3]@);
    if !str_eq(parts[n - 1].as_str(), "command") || !str_eq(parts[n - 3].as_str(), "device")
        || parts[n - 2].as_str().is_empty() {
        return None;
    }
    Some(parts[n - 2].clone())
}

/// Derives the state topic of a `.../command` topic.
pub fn state_topic_for_command_topic(topic: &str) -> (r: Option<String>)
    ensures
        match r {
            Some(s) => state_topic_of(topic@) == Some(s@),
            None => state_topic_of(topic@) is None,
        },
{
    let chars = crate::text::chars_of(topic);
    let suffix = crate::text::chars_of("/command");
    proof {
        reveal_strlit("/command");
    }
    if !crate::text::ends_with(&chars, &suffix) {
        return None;
    }
    let prefix = crate::text::string_from_subrange(&chars, 0, chars.len() - 8);
    let mut s = prefix;
    push_str(&mut s, "/state");
    Some(s)
}

/// A JSON-shaped payload, taken by its view.
pub open spec fn payload_view(p: &StrMap<Value>) -> Map<Seq<char>, ValueView> {
    value_views(p@)
}

/// A successful publish: the broker that took it, the topics, the device id,
/// the retained payload and the number of deliveries applied.
#[derive(Debug)]
pub struct PublishOutcome {
    pub broker: String,
    pub command_topic: String,
    pub state_topic: Option<String>,
    pub device_id: Option<String>,
    pub retained_payload: Option<StrMap<Value>>,
    pub deliveries: u32,
}

/// A device-command publish whose topics a scenario contract has matched.
pub struct DeviceCommandPublish<'a> {
    pub broker: &'a str,
    pub client: &'a str,
    pub command_topic: &'a str,
    pub device_id: &'a str,
    pub state_topic: &'a str,
    pub payload: StrMap<Value>,
    pub deliveries: u32,
}

/// In-memory model of the local and cloud brokers.
pub struct BrokerModel {
    online: StrMap<bool>,
    retained: StrMap<StrMap<Value>>,
    client_inboxes: StrMap<StrMap<StrMap<Value>>>,
}

pub struct BrokerView {
    pub online: Map<Seq<char>, bool>,
    /// Retained payload per state topic.
    pub retained: Map<Seq<char>, Map<Seq<char>, ValueView>>,
    /// Per client, the last payload it received per state topic.
    pub inboxes: Map<Seq<char>, Map<Seq<char>, Map<Seq<char>, ValueView>>>,
}

impl View for BrokerModel {
    type V = BrokerView;

    closed spec fn view(&self) -> BrokerView {
        BrokerView {
            online: self.online@,
            retained: nested_value_views(self.retained@),
            inboxes: self.client_inboxes@.map_values(
                |m: StrMap<StrMap<Value>>| nested_value_views(m@),
            ),
        }
    }
}

/// Whether a broker is online; an unknown broker is offline.
pub open spec fn broker_online(m: BrokerView, broker: Seq<char>) -> bool {
    m.online.contains_key(broker) && m.online[broker]
}

/// Whether a publish with these topics is accepted by the topic check.
pub open spec fn publish_topics_valid(device_id: Seq<char>, state_topic: Seq<char>) -> bool {
    device_id.len() > 0 && !device_id.contains('/') && state_topic.len() > 0
}

/// The broker after an accepted publish: the payload is retained under the
/// state topic and lands in the client's inbox.
pub open spec fn after_publish(
    m: BrokerView,
    client: Seq<char>,
    state_topic: Seq<char>,
    payload: Map<Seq<char>, ValueView>,
) -> BrokerView {
    let inbox = if m.inboxes.contains_key(client) {
        m.inboxes[client]
    } else {
        Map::empty()
    };
    BrokerView {
        online: m.online,
        retained: m.retained.insert(state_topic, payload),
        inboxes: m.inboxes.insert(client, inbox.insert(state_topic, payload)),
    }
}

/// The number of deliveries recorded: at least one.
pub open spec fn delivery_count(deliveries: u32) -> u32 {
    if deliveries < 1 {
        1
    } else {
        deliveries
    }
}

impl BrokerModel {
    /// A model with explicit online states for `mqtt.local` and `mqtt.cloud`.
    pub fn new(local_online: bool, cloud_online: bool) -> (m: Self)
        ensures
            m@.online == Map::<Seq<char>, bool>::empty().insert("mqtt.local"@, local_online).insert(
                "mqtt.cloud"@,
                cloud_online,
            ),
            m@.retained == Map::<Seq<char>, Map<Seq<char>, ValueView>>::empty(),
            m@.inboxes == Map::<Seq<char>, Map<Seq<char>, Map<Seq<char>, ValueView>>>::empty(),
    {
        let mut online = StrMap::new();
        online.insert(to_owned("mqtt.local"), local_online);
        online.insert(to_owned("mqtt.cloud"), cloud_online);
        let m = BrokerModel { online, retained: StrMap::new(), client_inboxes: StrMap::new() };
        assert(m@.retained =~= Map::<Seq<char>, Map<Seq<char>, ValueView>>::empty());
        assert(m@.inboxes =~= Map::<Seq<char>, Map<Seq<char>, Map<Seq<char>, ValueView>>>::empty());
        m
    }

    /// Whether the named broker is online.
    pub fn is_online(&self, broker: &str) -> (b: bool)
        ensures
            b == broker_online(self@, broker@),
    {
        match self.online.get_copied(broker) {
            Some(b) => b,
            None => false,
        }
    }

    /// Sets the online state of a named broker.
    pub fn set_online(&mut self, broker: &str, online: bool)
        ensures
            final(self)@.online == old(self)@.online.insert(broker@, online),
            final(self)@.retained == old(self)@.retained,
            final(self)@.inboxes == old(self)@.inboxes,
    {
        self.online.insert(to_owned(broker), online);
    }

    /// The retained payloads, keyed by state topic.
    pub fn retained(&self) -> (r: &StrMap<StrMap<Value>>)
        ensures
            nested_value_views(r@) == self@.retained,
    {
        &self.retained
    }

    /// Publishes a device command on a `.../device/<id>/command` topic; the
    /// state topic is derived from it.
    pub fn publish_device_command(
        &mut self,
        broker: &str,
        client: &str,
        topic: &str,
        payload: StrMap<Value>,
        deliveries: u32,
    ) -> (r: Result<PublishOutcome, MqttError>)
        ensures
            match r {
                Ok(outcome) => {
                    &&& broker_online(old(self)@, broker@)
                    &&& command_topic_device_id(topic@) is Some
                    &&& state_topic_of(topic@) is Some
                    &&& final(self)@ == after_publish(
                        old(self)@,
                        client@,
                        state_topic_of(topic@)->Some_0,
                        payload_view(&payload),
                    )
                    &&& outcome.broker@ == broker@
                    &&& outcome.command_topic@ == topic@
                    &&& outcome.state_topic matches Some(s) && s@ == state_topic_of(topic@)->Some_0
                    &&& outcome.device_id matches Some(d) && d@ == command_topic_device_id(
                        topic@,
                    )->Some_0
                    &&& outcome.retained_payload matches Some(p) && payload_view(&p)
                        == payload_view(&payload)
                    &&& outcome.deliveries == delivery_count(deliveries)
                },
                Err(MqttError::BrokerOffline(b)) => !broker_online(old(self)@, broker@) && b@
                    == broker@ && final(self)@ == old(self)@,
                Err(MqttError::InvalidCommandTopic(t)) => broker_online(old(self)@, broker@) && (
                command_topic_device_id(topic@) is None || state_topic_of(topic@) is None) && t@
                    == topic@ && final(self)@ == old(self)@,
            },
    {
        if !self.is_online(broker) {
            return Err(MqttError::BrokerOffline(to_owned(broker)));
        }
        let device_id = match device_id_from_command_topic(topic) {
            Some(d) => d,
            None => {
                return Err(MqttError::InvalidCommandTopic(to_owned(topic)));
            },
        };
        let state_topic = match state_topic_for_command_topic(topic) {
            Some(s) => s,
            None => {
                return Err(MqttError::InvalidCommandTopic(to_owned(topic)));
            },
        };
        proof {
            lemma_device_id_valid(topic@);
            lemma_state_topic_nonempty(topic@);
        }
        self.publish_device_command_with_topics(
            DeviceCommandPublish {
                broker,
                client,
                command_topic: topic,
                device_id: device_id.as_str(),
                state_topic: state_topic.as_str(),
                payload,
                deliveries,
            },
        )
    }

    /// Publishes a device command whose command and state topics a scenario
    /// contract has already matched. Repeated (QoS1) deliveries leave the
    /// same retained state as one.
    pub fn publish_device_command_with_topics(&mut self, publish: DeviceCommandPublish<'_>) -> (r:
        Result<PublishOutcome, MqttError>)
        ensures
            match r {
                Ok(outcome) => {
                    &&& broker_online(old(self)@, publish.broker@)
                    &&& publish_topics_valid(publish.device_id@, publish.state_topic@)
                    &&& final(self)@ == after_publish(
                        old(self)@,
                        publish.client@,
                        publish.state_topic@,
                        payload_view(&publish.payload),
                    )
                    &&& outcome.broker@ == publish.broker@
                    &&& outcome.command_topic@ == publish.command_topic@
                    &&& outcome.state_topic matches Some(s) && s@ == publish.state_topic@
                    &&& outcome.device_id matches Some(d) && d@ == publish.device_id@
                    &&& outcome.retained_payload matches Some(p) && payload_view(&p)
                        == payload_view(&publish.payload)
                    &&& outcome.deliveries == delivery_count(publish.deliveries)
                },
                Err(MqttError::BrokerOffline(b)) => !broker_online(old(self)@, publish.broker@)
                    && b@ == publish.broker@ && final(self)@ == old(self)@,
                Err(MqttError::InvalidCommandTopic(t)) => broker_online(
                    old(self)@,
                    publish.broker@,
                ) && !publish_topics_valid(publish.device_id@, publish.state_topic@) && t@
                    == publish.command_topic@ && final(self)@ == old(self)@,
            },
    {
        if !self.is_online(publish.broker) {
            return Err(MqttError::BrokerOffline(to_owned(publish.broker)));
        }
        let id_chars = crate::text::chars_of(publish.device_id);
        if publish.device_id.is_empty() || crate::text::seq_contains_char(&id_chars, '/')
            || publish.state_topic.is_empty() {
            return Err(MqttError::InvalidCommandTopic(to_owned(publish.command_topic)));
        }
        let ghost old_view = self@;
        let ghost pv = payload_view(&publish.payload);
        let delivery_count: u32 = if publish.deliveries < 1 {
            1
        } else {
            publish.deliveries
        };
        let mut k: u32 = 0;
        while k < delivery_count
            invariant
                0 <= k <= delivery_count,
                delivery_count >= 1,
                self.online@ == old_view.online,
                self@.inboxes == old_view.inboxes,
                k == 0 ==> self@.retained == old_view.retained,
                k > 0 ==> self@.retained == old_view.retained.insert(publish.state_topic@, pv),
                pv == payload_view(&publish.payload),
            decreases delivery_count - k,
        {
            let copy = clone_values(&publish.payload);
            self.retained.insert(to_owned(publish.state_topic), copy);
            proof {
                assert(self@.retained =~= old_view.retained.insert(publish.state_topic@, pv));
            }
            k = k + 1;
        }
        let inbox_copy = clone_values(&publish.payload);
        let ghost retained_now = self@.retained;
        let ghost expected = after_publish(old_view, publish.client@, publish.state_topic@, pv);
        let mut inbox = match self.client_inboxes.get(publish.client) {
            Some(existing) => clone_nested_values(existing),
            None => {
                let fresh: StrMap<StrMap<Value>> = StrMap::new();
                assert(nested_value_views(fresh@) =~= Map::<Seq<char>, Map<Seq<char>, ValueView>>::empty());
                fresh
            },
        };
        assert(nested_value_views(inbox@) == (if old_view.inboxes.contains_key(publish.client@) {
            old_view.inboxes[publish.client@]
        } else {
            Map::empty()
        }));
        inbox.insert(to_owned(publish.state_topic), inbox_copy);
        assert(nested_value_views(inbox@) =~= expected.inboxes[publish.client@]);
        self.client_inboxes.insert(to_owned(publish.client), inbox);
        proof {
            assert(self@.retained == expected.retained);
            assert(self@.inboxes =~= expected.inboxes);
        }
        Ok(
            PublishOutcome {
                broker: to_owned(publish.broker),
                command_topic: to_owned(publish.command_topic),
                state_topic: Some(to_owned(publish.state_topic)),
                device_id: Some(to_owned(publish.device_id)),
                retained_payload: Some(publish.payload),
                deliveries: delivery_count,
            },
        )
    }

    /// A client reconnect: the client receives every retained state topic at
    /// once and its inbox is replaced by them.
    pub fn reconnect_client(&mut self, client: &str) -> (r: StrMap<StrMap<Value>>)
        ensures
            nested_value_views(r@) == old(self)@.retained,
            final(self)@.online == old(self)@.online,
            final(self)@.retained == old(self)@.retained,
            final(self)@.inboxes == old(self)@.inboxes.insert(client@, old(self)@.retained),
    {
        let retained = clone_nested_values(&self.retained);
        let copy = clone_nested_values(&retained);
        self.client_inboxes.insert(to_owned(client), copy);
        proof {
            assert(self@.inboxes =~= old(self)@.inboxes.insert(client@, old(self)@.retained));
        }
        retained
    }
}

proof fn lemma_device_id_valid(topic: Seq<char>)
    requires
        command_topic_device_id(topic) is Some,
    ensures
        command_topic_device_id(topic)->Some_0.len() > 0,
        !command_topic_device_id(topic)->Some_0.contains('/'),
{
    let parts = split_on(topic, '/');
    lemma_split_on_nonempty(topic, '/');
    lemma_split_pieces_have_no_separator(topic, '/');
}

/// No piece of a split contains the separator.
pub proof fn lemma_split_pieces_have_no_separator(s: Seq<char>, sep: char)
    ensures
        forall|j: int| 0 <= j < split_on(s, sep).len() ==> !(#[trigger] split_on(s, sep)[j]).contains(sep),
    decreases s.len(),
{
    lemma_split_on_nonempty(s, sep);
    if s.len() > 0 {
        lemma_split_pieces_have_no_separator(s.drop_last(), sep);
        lemma_split_on_nonempty(s.drop_last(), sep);
        let prior = split_on(s.drop_last(), sep);
        if s.last() != sep {
            let last = prior.last().push(s.last());
            assert(!prior.last().contains(sep));
            assert forall|i: int| 0 <= i < last.len() implies last[i] != sep by {
                if i < last.len() - 1 {
                    assert(last[i] == prior.last()[i]);
                }
            }
        }
    }
}

/// The last piece of a split is a suffix of the text, and when there is
/// more than one piece the separator stands just before it.
pub proof fn lemma_split_last_piece(s: Seq<char>, sep: char)
    ensures
        ({
            let parts = split_on(s, sep);
            let p = parts.last();
            &&& parts.len() >= 1
            &&& p.len() <= s.len()
            &&& s.subrange(s.len() - p.len(), s.len() as int) == p
            &&& parts.len() >= 2 ==> p.len() < s.len() && s[s.len() - p.len() - 1] == sep
        }),
    decreases s.len(),
{
    lemma_split_on_nonempty(s, sep);
    if s.len() > 0 {
        let t = s.drop_last();
        lemma_split_last_piece(t, sep);
        lemma_split_on_nonempty(t, sep);
        let prior = split_on(t, sep);
        let q = prior.last();
        if s.last() == sep {
            assert(s.subrange(s.len() as int, s.len() as int) =~= Seq::<char>::empty());
        } else {
            let p = q.push(s.last());
            assert(split_on(s, sep).last() == p);
            assert(t.subrange(t.len() - q.len(), t.len() as int) == q);
            assert(s.subrange(s.len() - p.len(), s.len() as int) =~= p) by {
                assert forall|k: int| 0 <= k < p.len() implies s.subrange(
                    s.len() - p.len(),
                    s.len() as int,
                )[k] == p[k] by {
                    if k < q.len() {
                        assert(t.subrange(t.len() - q.len(), t.len() as int)[k] == q[k]);
                    }
                }
            }
            if split_on(s, sep).len() >= 2 {
                assert(s[s.len() - p.len() - 1] == t[t.len() - q.len() - 1]);
            }
        }
    }
}

/// A topic from which a device id can be read also has a state topic: a
/// `.../device/<id>/command` topic ends in `/command`.
pub proof fn law_device_topic_has_state_topic(topic: Seq<char>)
    requires
        command_topic_device_id(topic) is Some,
    ensures
        state_topic_of(topic) is Some,
{
    reveal_strlit("command");
    reveal_strlit("/command");
    let parts = split_on(topic, '/');
    lemma_split_last_piece(topic, '/');
    let p = parts.last();
    assert(p == "command"@);
    assert(topic.subrange(topic.len() - 8, topic.len() as int) =~= "/command"@) by {
        assert forall|k: int| 0 <= k < 8 implies topic.subrange(topic.len() - 8, topic.len() as int)[k]
            == "/command"@[k] by {
            if k > 0 {
                assert(topic.subrange(topic.len() - 7, topic.len() as int)[k - 1] == p[k - 1]);
            }
        }
    }
}

proof fn lemma_state_topic_nonempty(topic: Seq<char>)
    requires
        state_topic_of(topic) is Some,
    ensures
        state_topic_of(topic)->Some_0.len() > 0,
{
    reveal_strlit("/state");
}

/// Repeated deliveries of one publish leave the same broker state as a
/// single delivery: the model's state after a publish does not depend on
/// the delivery count.
pub proof fn law_duplicate_delivery_is_idempotent(
    m: BrokerView,
    client: Seq<char>,
    state_topic: Seq<char>,
    payload: Map<Seq<char>, ValueView>,
)
    ensures
        after_publish(after_publish(m, client, state_topic, payload), client, state_topic, payload)
            == after_publish(m, client, state_topic, payload),
{
    let once = after_publish(m, client, state_topic, payload);
    let twice = after_publish(once, client, state_topic, payload);
    assert(twice.retained =~= once.retained);
    assert(twice.inboxes[client] =~= once.inboxes[client]);
    assert(twice.inboxes =~= once.inboxes);
}

} // verus!
