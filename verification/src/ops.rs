//! Operations model: alerts raised by contact inputs open tickets, notify
//! Slack, trigger phone escalation and carry runbook links; tickets can be
//! acknowledged and the outcome checked against scenario assertions.

use vstd::prelude::*;

use crate::strmap::{keys_of, sorted_keys, StrMap};
use crate::text::{concat2, str_eq, to_owned};
use crate::value::{mapping_get, view_bool, view_get, view_str, Value, ValueView};

verus! {

/// Errors of the operations model.
#[derive(Debug, PartialEq, Eq)]
pub enum OpsError {
    UnknownAlertSource(String),
    UnsupportedAssertion(String),
}

impl OpsError {
    /// The human-readable message of the error.
    pub fn message(&self) -> (m: String)
        ensures
            match self {
                OpsError::UnknownAlertSource(s) => m@ == "unknown alert source "@ + s@,
                OpsError::UnsupportedAssertion(s) => m@ == "unsupported ops assertion "@ + s@,
            },
    {
        match self {
            OpsError::UnknownAlertSource(s) => concat2("unknown alert source ", s.as_str()),
            OpsError::UnsupportedAssertion(s) => concat2("unsupported ops assertion ", s.as_str()),
        }
    }
}

/// An operations event.
#[allow(inconsistent_fields)]
#[derive(Debug, PartialEq, Eq)]
pub enum OpsEvent {
    SlackNotificationSent { alert_id: String, runbook_url: Option<String> },
    PhoneCallTriggered { alert_id: String },
    TicketOpened { alert_id: String, status: String },
    TicketAcknowledged { alert_id: String, assignee: Option<String> },
    RunbookUrlIncluded { alert_id: String, runbook_url: String },
}

#[allow(inconsistent_fields)]
pub enum OpsEventView {
    SlackNotificationSent { alert_id: Seq<char>, runbook_url: Option<Seq<char>> },
    PhoneCallTriggered { alert_id: Seq<char> },
    TicketOpened { alert_id: Seq<char>, status: Seq<char> },
    TicketAcknowledged { alert_id: Seq<char>, assignee: Option<Seq<char>> },
    RunbookUrlIncluded { alert_id: Seq<char>, runbook_url: Seq<char> },
}

/// An optional string taken by its characters.
pub open spec fn opt_chars(o: Option<String>) -> Option<Seq<char>> {
    match o {
        Some(s) => Some(s@),
        None => None,
    }
}

impl View for OpsEvent {
    type V = OpsEventView;

    open spec fn view(&self) -> OpsEventView {
        match self {
            OpsEvent::SlackNotificationSent { alert_id, runbook_url } =>
                OpsEventView::SlackNotificationSent {
                alert_id: alert_id@,
                runbook_url: opt_chars(*runbook_url),
            },
            OpsEvent::PhoneCallTriggered { alert_id } => OpsEventView::PhoneCallTriggered {
                alert_id: alert_id@,
            },
            OpsEvent::TicketOpened { alert_id, status } => OpsEventView::TicketOpened {
                alert_id: alert_id@,
                status: status@,
            },
            OpsEvent::TicketAcknowledged { alert_id, assignee } => OpsEventView::TicketAcknowledged {
                alert_id: alert_id@,
                assignee: opt_chars(*assignee),
            },
            OpsEvent::RunbookUrlIncluded { alert_id, runbook_url } =>
                OpsEventView::RunbookUrlIncluded { alert_id: alert_id@, runbook_url: runbook_url@ },
        }
    }
}

/// The outcome of an ops assertion.
#[derive(Debug)]
pub struct OpsAssertionOutcome {
    pub passed: bool,
    pub failures: Vec<String>,
}

#[derive(Debug)]
struct OpsAlert {
    id: String,
    source: String,
    notify_slack: bool,
    notify_phone: bool,
    runbook_url: Option<String>,
}

pub struct AlertView {
    pub id: Seq<char>,
    pub source: Seq<char>,
    pub notify_slack: bool,
    pub notify_phone: bool,
    pub runbook_url: Option<Seq<char>>,
}

#[derive(Debug)]
struct TicketState {
    status: String,
    assignee: Option<String>,
}

pub struct TicketView {
    pub status: Seq<char>,
    pub assignee: Option<Seq<char>>,
}

/// Alerts, open tickets, sent Slack notifications, phone escalations and
/// included runbook links.
#[derive(Debug)]
pub struct OpsModel {
    alerts: Vec<OpsAlert>,
    tickets: StrMap<TicketState>,
    slack_notifications: StrMap<Option<String>>,
    phone_calls: StrMap<bool>,
    runbook_urls: StrMap<String>,
}

pub struct OpsView {
    pub alerts: Seq<AlertView>,
    pub tickets: Map<Seq<char>, TicketView>,
    pub slack: Map<Seq<char>, Option<Seq<char>>>,
    pub phone: Map<Seq<char>, bool>,
    pub runbooks: Map<Seq<char>, Seq<char>>,
}

spec fn alert_view(a: OpsAlert) -> AlertView {
    AlertView {
        id: a.id@,
        source: a.source@,
        notify_slack: a.notify_slack,
        notify_phone: a.notify_phone,
        runbook_url: opt_chars(a.runbook_url),
    }
}

spec fn ticket_view(t: TicketState) -> TicketView {
    TicketView { status: t.status@, assignee: opt_chars(t.assignee) }
}

impl View for OpsModel {
    type V = OpsView;

    closed spec fn view(&self) -> OpsView {
        OpsView {
            alerts: self.alerts@.map_values(|a: OpsAlert| alert_view(a)),
            tickets: self.tickets@.map_values(|t: TicketState| ticket_view(t)),
            slack: self.slack_notifications@.map_values(|o: Option<String>| opt_chars(o)),
            phone: self.phone_calls@,
            runbooks: self.runbook_urls@.map_values(|s: String| s@),
        }
    }
}

/// The alert an alert config entry declares: `id` and `source` strings are
/// required, `notify.slack` / `notify.phone` default to false.
pub open spec fn alert_of(config: Map<Seq<char>, ValueView>) -> Option<AlertView> {
    let id = if config.contains_key("id"@) {
        view_str(config["id"@])
    } else {
        None
    };
    let source = if config.contains_key("source"@) {
        view_str(config["source"@])
    } else {
        None
    };
    let notify = if config.contains_key("notify"@) && config["notify"@] is Mapping {
        Some(config["notify"@])
    } else {
        None
    };
    let flag = |name: Seq<char>|
        match notify {
            Some(n) => match view_get(n, name) {
                Some(v) => view_bool(v) == Some(true),
                None => false,
            },
            None => false,
        };
    match (id, source) {
        (Some(id), Some(source)) => Some(
            AlertView {
                id,
                source,
                notify_slack: flag("slack"@),
                notify_phone: flag("phone"@),
                runbook_url: if config.contains_key("runbook_url"@) {
                    view_str(config["runbook_url"@])
                } else {
                    None
                },
            },
        ),
        _ => None,
    }
}

/// The alerts of a config list: entries that do not declare one are skipped.
pub open spec fn alerts_of(configs: Seq<Map<Seq<char>, ValueView>>) -> Seq<AlertView>
    decreases configs.len(),
{
    if configs.len() == 0 {
        Seq::empty()
    } else {
        let prior = alerts_of(configs.drop_last());
        match alert_of(configs.last()) {
            Some(a) => prior.push(a),
            None => prior,
        }
    }
}

/// The contact an alert source names, `contact.<id>`.
pub open spec fn source_contact(source: Seq<char>) -> Option<Seq<char>> {
    if source.len() >= 8 && source.subrange(0, 8) == "contact."@ {
        Some(source.subrange(8, source.len() as int))
    } else {
        None
    }
}

/// The model and events after one alert fires.
pub open spec fn alert_fired(m: OpsView, a: AlertView) -> (OpsView, Seq<OpsEventView>) {
    let m1 = OpsView {
        tickets: m.tickets.insert(a.id, TicketView { status: "open"@, assignee: None }),
        ..m
    };
    let e1 = seq![OpsEventView::TicketOpened { alert_id: a.id, status: "open"@ }];
    let (m2, e2) = if a.notify_slack {
        (
            OpsView { slack: m1.slack.insert(a.id, a.runbook_url), ..m1 },
            e1.push(OpsEventView::SlackNotificationSent { alert_id: a.id, runbook_url: a.runbook_url }),
        )
    } else {
        (m1, e1)
    };
    let (m3, e3) = if a.notify_phone {
        (
            OpsView { phone: m2.phone.insert(a.id, true), ..m2 },
            e2.push(OpsEventView::PhoneCallTriggered { alert_id: a.id }),
        )
    } else {
        (m2, e2)
    };
    match a.runbook_url {
        Some(url) => (
            OpsView { runbooks: m3.runbooks.insert(a.id, url), ..m3 },
            e3.push(OpsEventView::RunbookUrlIncluded { alert_id: a.id, runbook_url: url }),
        ),
        None => (m3, e3),
    }
}

/// The model and events after a contact turns on, for the first alerts of
/// the list, in alert order; only alerts whose source is `source` fire.
pub open spec fn alerts_fired(m: OpsView, alerts: Seq<AlertView>, source: Seq<char>) -> (
    OpsView,
    Seq<OpsEventView>,
)
    decreases alerts.len(),
{
    if alerts.len() == 0 {
        (m, Seq::empty())
    } else {
        let (m1, e1) = alerts_fired(m, alerts.drop_last(), source);
        if alerts.last().source == source {
            let (m2, e2) = alert_fired(m1, alerts.last());
            (m2, e1 + e2)
        } else {
            (m1, e1)
        }
    }
}

/// The failure, if any, of one ops assertion entry; `Err` names an
/// unsupported key.
pub open spec fn assertion_failure(m: OpsView, key: Seq<char>, expected: ValueView) -> Result<
    Option<Seq<char>>,
    Seq<char>,
> {
    let expects = view_bool(expected) == Some(true);
    if key == "slack_notification_sent"@ {
        Ok(
            if expects && m.slack.len() == 0 {
                Some("Slack notification was not sent"@)
            } else {
                None
            },
        )
    } else if key == "phone_call_triggered"@ {
        Ok(
            if expects && !(exists|k: Seq<char>| m.phone.contains_key(k) && m.phone[k]) {
                Some("Phone escalation was not triggered"@)
            } else {
                None
            },
        )
    } else if key == "runbook_url_included"@ {
        Ok(
            if expects && m.runbooks.len() == 0 {
                Some("Runbook URL was not included"@)
            } else {
                None
            },
        )
    } else if key == "ticket_status"@ {
        let status = match view_str(expected) {
            Some(s) => s,
            None => Seq::empty(),
        };
        Ok(
            if !(exists|k: Seq<char>| m.tickets.contains_key(k) && m.tickets[k].status == status) {
                Some("No ticket reached expected status "@ + status)
            } else {
                None
            },
        )
    } else {
        Err(key)
    }
}

/// The failures of an assertion's entries, in entry order, or the first
/// unsupported key.
pub open spec fn assertion_failures(m: OpsView, entries: Seq<(Seq<char>, ValueView)>) -> Result<
    Seq<Seq<char>>,
    Seq<char>,
>
    decreases entries.len(),
{
    if entries.len() == 0 {
        Ok(Seq::empty())
    } else {
        match assertion_failures(m, entries.drop_last()) {
            Err(k) => Err(k),
            Ok(prior) => match assertion_failure(m, entries.last().0, entries.last().1) {
                Err(k) => Err(k),
                Ok(Some(f)) => Ok(prior.push(f)),
                Ok(None) => Ok(prior),
            },
        }
    }
}

/// The entries of an assertion map, in key order, values by their views.
pub open spec fn assertion_entries(a: &StrMap<Value>) -> Seq<(Seq<char>, ValueView)> {
    a.entry_seq().map_values(|e: (Seq<char>, Value)| (e.0, e.1@))
}

fn clone_opt(o: &Option<String>) -> (r: Option<String>)
    ensures
        opt_chars(r) == opt_chars(*o),
{
    match o {
        Some(s) => Some(s.clone()),
        None => None,
    }
}

fn alert_from_config(config: &StrMap<Value>) -> (r: Option<OpsAlert>)
    ensures
        match r {
            Some(a) => alert_of(config@.map_values(|v: Value| v@)) == Some(alert_view(a)),
            None => alert_of(config@.map_values(|v: Value| v@)) is None,
        },
{
    let ghost cv = config@.map_values(|v: Value| v@);
    let id = match config.get("id") {
        Some(v) => match v.as_str() {
            Some(s) => s.clone(),
            None => {
                return None;
            },
        },
        None => {
            return None;
        },
    };
    let source = match config.get("source") {
        Some(v) => match v.as_str() {
            Some(s) => s.clone(),
            None => {
                return None;
            },
        },
        None => {
            return None;
        },
    };
    let notify = match config.get("notify") {
        Some(v) => v.as_mapping(),
        None => None,
    };
    let notify_slack = match notify {
        Some(entries) => match mapping_get(entries, "slack") {
            Some(v) => match v.as_bool() {
                Some(b) => b,
                None => false,
            },
            None => false,
        },
        None => false,
    };
    let notify_phone = match notify {
        Some(entries) => match mapping_get(entries, "phone") {
            Some(v) => match v.as_bool() {
                Some(b) => b,
                None => false,
            },
            None => false,
        },
        None => false,
    };
    let runbook_url = match config.get("runbook_url") {
        Some(v) => match v.as_str() {
            Some(s) => Some(s.clone()),
            None => None,
        },
        None => None,
    };
    let a = OpsAlert { id, source, notify_slack, notify_phone, runbook_url };
    assert(alert_of(cv) == Some(alert_view(a)));
    Some(a)
}

impl OpsModel {
    /// The alert ids with a ticket, in the order tickets are kept (their
    /// code-point order).
    pub closed spec fn ticket_ids(&self) -> Seq<Seq<char>> {
        self.tickets.key_seq()
    }

    /// The model of an alert config list; entries without an `id` and a
    /// `source` string are skipped.
    pub fn from_config(alerts: &Vec<StrMap<Value>>) -> (m: Self)
        ensures
            m@.alerts == alerts_of(alerts@.map_values(|c: StrMap<Value>| c@.map_values(|v: Value| v@))),
            m@.tickets == Map::<Seq<char>, TicketView>::empty(),
            m@.slack == Map::<Seq<char>, Option<Seq<char>>>::empty(),
            m@.phone == Map::<Seq<char>, bool>::empty(),
            m@.runbooks == Map::<Seq<char>, Seq<char>>::empty(),
    {
        let ghost configs = alerts@.map_values(|c: StrMap<Value>| c@.map_values(|v: Value| v@));
        let mut list: Vec<OpsAlert> = Vec::new();
        let mut i: usize = 0;
        while i < alerts.len()
            invariant
                i <= alerts.len(),
                configs == alerts@.map_values(|c: StrMap<Value>| c@.map_values(|v: Value| v@)),
                list@.map_values(|a: OpsAlert| alert_view(a)) == alerts_of(configs.take(i as int)),
            decreases alerts.len() - i,
        {
            let ghost before = list@.map_values(|a: OpsAlert| alert_view(a));
            assert(configs.take(i + 1).drop_last() =~= configs.take(i as int));
            assert(configs.take(i + 1).last() == alerts@[i as int]@.map_values(|v: Value| v@));
            match alert_from_config(&alerts[i]) {
                Some(a) => {
                    list.push(a);
                    assert(list@.map_values(|a: OpsAlert| alert_view(a)) =~= before.push(
                        alert_view(list@.last()),
                    ));
                },
                None => {},
            }
            i = i + 1;
        }
        assert(configs.take(alerts.len() as int) =~= configs);
        let m = OpsModel {
            alerts: list,
            tickets: StrMap::new(),
            slack_notifications: StrMap::new(),
            phone_calls: StrMap::new(),
            runbook_urls: StrMap::new(),
        };
        assert(m@.tickets =~= Map::<Seq<char>, TicketView>::empty());
        assert(m@.slack =~= Map::<Seq<char>, Option<Seq<char>>>::empty());
        assert(m@.runbooks =~= Map::<Seq<char>, Seq<char>>::empty());
        m
    }

    /// Checks that every alert source is `contact.<id>` for a contact that
    /// `has_contact` accepts; reports the first alert that fails.
    pub fn validate_sources<F: Fn(&str) -> bool>(&self, has_contact: F) -> (r: Result<(), OpsError>)
        requires
            forall|s: &str| has_contact.requires((s,)),
        ensures
            match r {
                Ok(()) => forall|i: int|
                    0 <= i < self@.alerts.len() ==> #[trigger] source_contact(self@.alerts[i].source)
                        is Some && exists|s: &str|
                        s@ == source_contact(self@.alerts[i].source)->Some_0 && has_contact.ensures(
                            (s,),
                            true,
                        ),
                Err(OpsError::UnknownAlertSource(src)) => exists|i: int|
                    0 <= i < self@.alerts.len() && src@ == self@.alerts[i].source && (forall|j: int|
                        0 <= j < i ==> #[trigger] source_contact(self@.alerts[j].source) is Some
                            && exists|s: &str|
                            s@ == source_contact(self@.alerts[j].source)->Some_0
                                && has_contact.ensures((s,), true)) && (source_contact(
                        self@.alerts[i].source,
                    ) is None || exists|s: &str|
                        s@ == source_contact(self@.alerts[i].source)->Some_0 && has_contact.ensures(
                            (s,),
                            false,
                        )),
                Err(_) => false,
            },
    {
        let mut i: usize = 0;
        while i < self.alerts.len()
            invariant
                i <= self.alerts.len(),
                forall|s: &str| has_contact.requires((s,)),
                forall|j: int|
                    0 <= j < i ==> #[trigger] source_contact(self@.alerts[j].source) is Some
                        && exists|s: &str|
                        s@ == source_contact(self@.alerts[j].source)->Some_0 && has_contact.ensures(
                            (s,),
                            true,
                        ),
            decreases self.alerts.len() - i,
        {
            let alert = &self.alerts[i];
            assert(self@.alerts[i as int] == alert_view(*alert));
            let chars = crate::text::chars_of(alert.source.as_str());
            let prefix = crate::text::chars_of("contact.");
            proof {
                reveal_strlit("contact.");
            }
            if !crate::text::starts_with(&chars, &prefix) {
                return Err(OpsError::UnknownAlertSource(alert.source.clone()));
            }
            let contact = crate::text::string_from_subrange(&chars, 8, chars.len());
            let ok = has_contact(contact.as_str());
            if !ok {
                assert(contact@ == source_contact(self@.alerts[i as int].source)->Some_0);
                return Err(OpsError::UnknownAlertSource(alert.source.clone()));
            }
            assert(contact@ == source_contact(self@.alerts[i as int].source)->Some_0);
            i = i + 1;
        }
        Ok(())
    }

    /// A contact change: when the contact turns `on`, every alert whose
    /// source is that contact opens a ticket and sends its notifications, in
    /// alert order. Other states change nothing.
    pub fn apply_contact_change(&mut self, contact_id: &str, state: &str) -> (events: Vec<OpsEvent>)
        ensures
            state@ != "on"@ ==> events@.len() == 0 && final(self)@ == old(self)@,
            state@ == "on"@ ==> {
                let (m, es) = alerts_fired(old(self)@, old(self)@.alerts, "contact."@ + contact_id@);
                &&& final(self)@ == m
                &&& events@.map_values(|e: OpsEvent| e@) == es
            },
    {
        if !str_eq(state, "on") {
            return Vec::new();
        }
        let source = concat2("contact.", contact_id);
        let ghost start = self@;
        let ghost alerts = self@.alerts;
        let mut events: Vec<OpsEvent> = Vec::new();
        let mut i: usize = 0;
        while i < self.alerts.len()
            invariant
                i <= self.alerts.len(),
                self@.alerts == alerts,
                alerts == start.alerts,
                source@ == "contact."@ + contact_id@,
                ({
                    let (m, es) = alerts_fired(start, alerts.take(i as int), source@);
                    &&& self@ == m
                    &&& events@.map_values(|e: OpsEvent| e@) == es
                }),
            decreases self.alerts.len() - i,
        {
            let ghost prefix = alerts.take(i + 1);
            assert(prefix.drop_last() =~= alerts.take(i as int));
            assert(alerts[i as int] == alert_view(self.alerts@[i as int]));
            if str_eq(self.alerts[i].source.as_str(), source.as_str()) {
                let ghost before_model = self@;
                let ghost before_events = events@.map_values(|e: OpsEvent| e@);
                let id = self.alerts[i].id.clone();
                let notify_slack = self.alerts[i].notify_slack;
                let notify_phone = self.alerts[i].notify_phone;
                let runbook_url = clone_opt(&self.alerts[i].runbook_url);
                self.fire_alert(&id, notify_slack, notify_phone, runbook_url, &mut events);
                proof {
                    let (m2, e2) = alert_fired(before_model, alerts[i as int]);
                    assert(self@ == m2);
                    assert(events@.map_values(|e: OpsEvent| e@) =~= before_events + e2);
                }
            }
            i = i + 1;
        }
        assert(alerts.take(self.alerts.len() as int) =~= alerts);
        events
    }

    fn fire_alert(
        &mut self,
        id: &String,
        notify_slack: bool,
        notify_phone: bool,
        runbook_url: Option<String>,
        events: &mut Vec<OpsEvent>,
    )
        ensures
            ({
                let (m, es) = alert_fired(
                    old(self)@,
                    AlertView {
                        id: id@,
                        source: Seq::empty(),
                        notify_slack,
                        notify_phone,
                        runbook_url: opt_chars(runbook_url),
                    },
                );
                &&& final(self)@.alerts == old(self)@.alerts
                &&& final(self)@.tickets == m.tickets
                &&& final(self)@.slack == m.slack
                &&& final(self)@.phone == m.phone
                &&& final(self)@.runbooks == m.runbooks
                &&& final(events)@.map_values(|e: OpsEvent| e@) == old(events)@.map_values(
                    |e: OpsEvent| e@,
                ) + es
            }),
    {
        let ghost m0 = self@;
        let ghost e0 = events@.map_values(|e: OpsEvent| e@);
        self.tickets.insert(
            id.clone(),
            TicketState { status: to_owned("open"), assignee: None },
        );
        events.push(OpsEvent::TicketOpened { alert_id: id.clone(), status: to_owned("open") });
        if notify_slack {
            self.slack_notifications.insert(id.clone(), clone_opt(&runbook_url));
            events.push(
                OpsEvent::SlackNotificationSent { alert_id: id.clone(), runbook_url: clone_opt(&runbook_url) },
            );
        }
        if notify_phone {
            self.phone_calls.insert(id.clone(), true);
            events.push(OpsEvent::PhoneCallTriggered { alert_id: id.clone() });
        }
        match runbook_url {
            Some(url) => {
                self.runbook_urls.insert(id.clone(), url.clone());
                events.push(OpsEvent::RunbookUrlIncluded { alert_id: id.clone(), runbook_url: url });
            },
            None => {},
        }
        proof {
            let a = AlertView {
                id: id@,
                source: Seq::empty(),
                notify_slack,
                notify_phone,
                runbook_url: opt_chars(runbook_url),
            };
            let (m, es) = alert_fired(m0, a);
            assert(self@.tickets =~= m.tickets);
            assert(self@.slack =~= m.slack);
            assert(self@.runbooks =~= m.runbooks);
            assert(events@.map_values(|e: OpsEvent| e@) =~= e0 + es);
        }
    }

    /// Records a Slack notification sent for `alert_id` (a fault profile or
    /// failover rather than an alert rule) and reports it.
    pub fn record_slack_notification(&mut self, alert_id: &str, runbook_url: Option<String>) -> (event:
        OpsEvent)
        ensures
            final(self)@.slack == old(self)@.slack.insert(alert_id@, opt_chars(runbook_url)),
            final(self)@.alerts == old(self)@.alerts,
            final(self)@.tickets == old(self)@.tickets,
            final(self)@.phone == old(self)@.phone,
            final(self)@.runbooks == old(self)@.runbooks,
            event@ == (OpsEventView::SlackNotificationSent {
                alert_id: alert_id@,
                runbook_url: opt_chars(runbook_url),
            }),
    {
        let recorded = match &runbook_url {
            Some(u) => Some(u.clone()),
            None => None,
        };
        self.slack_notifications.insert(crate::text::to_owned(alert_id), recorded);
        assert(self@.slack =~= old(self)@.slack.insert(alert_id@, opt_chars(runbook_url)));
        OpsEvent::SlackNotificationSent { alert_id: crate::text::to_owned(alert_id), runbook_url }
    }

    /// Acknowledges every ticket for `assignee`, in ticket order.
    pub fn acknowledge(&mut self, assignee: Option<String>) -> (events: Vec<OpsEvent>)
        ensures
            final(self)@.alerts == old(self)@.alerts,
            final(self)@.slack == old(self)@.slack,
            final(self)@.phone == old(self)@.phone,
            final(self)@.runbooks == old(self)@.runbooks,
            final(self)@.tickets.dom() == old(self)@.tickets.dom(),
            forall|k: Seq<char>| #[trigger] final(self)@.tickets.contains_key(k) ==> final(self)@.tickets[k]
                == (TicketView { status: "acknowledged"@, assignee: opt_chars(assignee) }),
            final(self).ticket_ids() == old(self).ticket_ids(),
            sorted_keys(old(self).ticket_ids()),
            forall|k: Seq<char>| #[trigger] old(self)@.tickets.contains_key(k) <==> old(self).ticket_ids().contains(k),
            events@.map_values(|e: OpsEvent| e@) == old(self).ticket_ids().map_values(
                |k: Seq<char>| OpsEventView::TicketAcknowledged { alert_id: k, assignee: opt_chars(assignee) },
            ),
    {
        proof {
            use_type_invariant(&self.tickets);
            self.tickets.lemma_wf();
        }
        let ghost ids = self.ticket_ids();
        let ghost start = self@;
        proof {
            assert forall|k: Seq<char>| #[trigger] start.tickets.contains_key(k) <==> ids.contains(k) by {
                if start.tickets.contains_key(k) {
                    let j = choose|j: int| 0 <= j < self.tickets.entry_seq().len() && self.tickets.entry_seq()[j].0 == k;
                    assert(ids[j] == k);
                }
                if ids.contains(k) {
                    let j = choose|j: int| 0 <= j < ids.len() && ids[j] == k;
                    assert(self.tickets.entry_seq()[j].0 == k);
                }
            }
        }
        let n = self.tickets.len();
        let mut events: Vec<OpsEvent> = Vec::new();
        let mut i: usize = 0;
        while i < n
            invariant
                i <= n,
                n == ids.len(),
                self.ticket_ids() == ids,
                self@.alerts == start.alerts,
                self@.slack == start.slack,
                self@.phone == start.phone,
                self@.runbooks == start.runbooks,
                self@.tickets.dom() == start.tickets.dom(),
                forall|j: int| 0 <= j < i ==> #[trigger] self@.tickets[ids[j]] == (TicketView {
                    status: "acknowledged"@,
                    assignee: opt_chars(assignee),
                }),
                events@.map_values(|e: OpsEvent| e@) == ids.take(i as int).map_values(
                    |k: Seq<char>| OpsEventView::TicketAcknowledged { alert_id: k, assignee: opt_chars(assignee) },
                ),
            decreases n - i,
        {
            proof {
                use_type_invariant(&self.tickets);
                self.tickets.lemma_wf();
            }
            let ghost before = events@.map_values(|e: OpsEvent| e@);
            let id = self.tickets.key_at(i).clone();
            let ticket = TicketState { status: to_owned("acknowledged"), assignee: clone_opt(&assignee) };
            let ghost old_map = self.tickets@;
            let ghost old_tickets = self@.tickets;
            assert(forall|j: int| 0 <= j < n ==> old_map.contains_key(#[trigger] ids[j]));
            self.tickets.set_value_at(i, ticket);
            events.push(OpsEvent::TicketAcknowledged { alert_id: id, assignee: clone_opt(&assignee) });
            proof {
                assert(self.ticket_ids() =~= ids);
                assert forall|j: int| 0 <= j < i + 1 implies #[trigger] self@.tickets[ids[j]] == (TicketView {
                    status: "acknowledged"@,
                    assignee: opt_chars(assignee),
                }) by {
                    if j < i {
                        assert(ids[j] != ids[i as int]);
                        assert(old_map.contains_key(ids[j]));
                        assert(old_tickets[ids[j]] == ticket_view(old_map[ids[j]]));
                        assert(self.tickets@[ids[j]] == old_map[ids[j]]);
                    } else {
                        assert(self.tickets@.contains_key(ids[j]));
                    }
                }
                assert(events@.map_values(|e: OpsEvent| e@) =~= before.push(
                    OpsEventView::TicketAcknowledged { alert_id: ids[i as int], assignee: opt_chars(assignee) },
                ));
                assert(ids.take(i + 1) =~= ids.take(i as int).push(ids[i as int]));
                assert(events@.map_values(|e: OpsEvent| e@) =~= ids.take(i + 1).map_values(
                    |k: Seq<char>| OpsEventView::TicketAcknowledged { alert_id: k, assignee: opt_chars(assignee) },
                ));
            }
            i = i + 1;
        }
        proof {
            use_type_invariant(&self.tickets);
            self.tickets.lemma_wf();
            assert(ids.take(n as int) =~= ids);
            assert forall|k: Seq<char>| #[trigger] self@.tickets.contains_key(k) implies self@.tickets[k]
                == (TicketView { status: "acknowledged"@, assignee: opt_chars(assignee) }) by {
                let j = choose|j: int| 0 <= j < self.tickets.entry_seq().len() && self.tickets.entry_seq()[j].0 == k;
                assert(ids[j] == k);
            }
        }
        events
    }

    /// Checks an ops assertion: each entry, in key order, may add a failure;
    /// an unknown key is an error.
    pub fn evaluate_assertion(&self, assertion: &StrMap<Value>) -> (r: Result<OpsAssertionOutcome, OpsError>)
        ensures
            match r {
                Ok(outcome) => assertion_failures(self@, assertion_entries(assertion)) matches Ok(
                    fs,
                ) && outcome.failures@.map_values(|s: String| s@) == fs && outcome.passed == (fs.len()
                    == 0),
                Err(OpsError::UnsupportedAssertion(k)) => assertion_failures(
                    self@,
                    assertion_entries(assertion),
                ) == Err::<Seq<Seq<char>>, Seq<char>>(k@),
                Err(_) => false,
            },
    {
        let ghost entries = assertion_entries(assertion);
        let mut failures: Vec<String> = Vec::new();
        let n = assertion.len();
        assert(entries.take(0) =~= Seq::<(Seq<char>, ValueView)>::empty());
        assert(failures@.map_values(|s: String| s@) =~= Seq::<Seq<char>>::empty());
        let mut i: usize = 0;
        while i < n
            invariant
                i <= n,
                n == entries.len(),
                entries == assertion_entries(assertion),
                assertion_failures(self@, entries.take(i as int)) == Ok::<Seq<Seq<char>>, Seq<char>>(
                    failures@.map_values(|s: String| s@),
                ),
            decreases n - i,
        {
            let ghost before = failures@.map_values(|s: String| s@);
            assert(entries.take(i + 1).drop_last() =~= entries.take(i as int));
            let key = assertion.key_at(i);
            let expected = assertion.value_at(i);
            assert(entries.take(i + 1).last() == (key@, expected@));
            proof {
                assert(self@.slack.dom() =~= self.slack_notifications@.dom());
                assert(self@.runbooks.dom() =~= self.runbook_urls@.dom());
            }
            let expects = match expected.as_bool() {
                Some(b) => b,
                None => false,
            };
            let failure: Option<String> = if str_eq(key.as_str(), "slack_notification_sent") {
                if expects && self.slack_notifications.is_empty() {
                    Some(to_owned("Slack notification was not sent"))
                } else {
                    None
                }
            } else if str_eq(key.as_str(), "phone_call_triggered") {
                if expects && !self.any_phone_call() {
                    Some(to_owned("Phone escalation was not triggered"))
                } else {
                    None
                }
            } else if str_eq(key.as_str(), "runbook_url_included") {
                if expects && self.runbook_urls.is_empty() {
                    Some(to_owned("Runbook URL was not included"))
                } else {
                    None
                }
            } else if str_eq(key.as_str(), "ticket_status") {
                let status = match expected.as_str() {
                    Some(s) => s.clone(),
                    None => String::new(),
                };
                if !self.any_ticket_with_status(status.as_str()) {
                    Some(concat2("No ticket reached expected status ", status.as_str()))
                } else {
                    None
                }
            } else {
                proof {
                    lemma_failures_error_prefix(self@, entries, i as int);
                }
                return Err(OpsError::UnsupportedAssertion(key.clone()));
            };
            assert(assertion_failure(self@, key@, expected@) == Ok::<Option<Seq<char>>, Seq<char>>(
                opt_chars(failure),
            ));
            match failure {
                Some(f) => {
                    failures.push(f);
                    assert(failures@.map_values(|s: String| s@) =~= before.push(failures@.last()@));
                },
                None => {},
            }
            i = i + 1;
        }
        assert(entries.take(n as int) =~= entries);
        let passed = failures.len() == 0;
        Ok(OpsAssertionOutcome { passed, failures })
    }

    #[verifier::loop_isolation(false)]
    fn any_phone_call(&self) -> (r: bool)
        ensures
            r == exists|k: Seq<char>| self@.phone.contains_key(k) && self@.phone[k],
    {
        proof {
            use_type_invariant(&self.phone_calls);
            self.phone_calls.lemma_wf();
        }
        let n = self.phone_calls.len();
        let mut i: usize = 0;
        while i < n
            invariant
                i <= n,
                n == self.phone_calls.entry_seq().len(),
                forall|j: int| 0 <= j < i ==> !#[trigger] self.phone_calls.entry_seq()[j].1,
            decreases n - i,
        {
            if *self.phone_calls.value_at(i) {
                assert(self@.phone.contains_key(self.phone_calls.entry_seq()[i as int].0));
                return true;
            }
            i = i + 1;
        }
        proof {
            assert forall|k: Seq<char>| self@.phone.contains_key(k) implies !self@.phone[k] by {
                let j = choose|j: int| 0 <= j < self.phone_calls.entry_seq().len() && self.phone_calls.entry_seq()[j].0 == k;
                assert(!self.phone_calls.entry_seq()[j].1);
            }
        }
        false
    }

    #[verifier::loop_isolation(false)]
    fn any_ticket_with_status(&self, status: &str) -> (r: bool)
        ensures
            r == exists|k: Seq<char>| self@.tickets.contains_key(k) && self@.tickets[k].status == status@,
    {
        proof {
            use_type_invariant(&self.tickets);
            self.tickets.lemma_wf();
        }
        let n = self.tickets.len();
        let mut i: usize = 0;
        while i < n
            invariant
                i <= n,
                n == self.tickets.entry_seq().len(),
                forall|j: int| 0 <= j < i ==> (#[trigger] self.tickets.entry_seq()[j]).1.status@ != status@,
            decreases n - i,
        {
            if str_eq(self.tickets.value_at(i).status.as_str(), status) {
                let ghost k = self.tickets.entry_seq()[i as int].0;
                assert(self@.tickets.contains_key(k) && self@.tickets[k].status == status@);
                return true;
            }
            i = i + 1;
        }
        proof {
            assert forall|k: Seq<char>| self@.tickets.contains_key(k) implies self@.tickets[k].status != status@ by {
                let j = choose|j: int| 0 <= j < self.tickets.entry_seq().len() && self.tickets.entry_seq()[j].0 == k;
                assert(self.tickets.entry_seq()[j].1.status@ != status@);
            }
        }
        false
    }
}

proof fn lemma_failures_error_prefix(m: OpsView, entries: Seq<(Seq<char>, ValueView)>, i: int)
    requires
        0 <= i < entries.len(),
        assertion_failures(m, entries.take(i + 1)) is Err,
    ensures
        assertion_failures(m, entries) == assertion_failures(m, entries.take(i + 1)),
    decreases entries.len(),
{
    if entries.len() > i + 1 {
        assert(entries.drop_last().take(i + 1) =~= entries.take(i + 1));
        lemma_failures_error_prefix(m, entries.drop_last(), i);
    } else {
        assert(entries.take(i + 1) =~= entries);
    }
}

/// A contact change that no alert watches leaves the model unchanged and
/// raises no event.
pub proof fn law_unwatched_contact_fires_nothing(m: OpsView, alerts: Seq<AlertView>, source: Seq<char>)
    requires
        forall|i: int| 0 <= i < alerts.len() ==> #[trigger] alerts[i].source != source,
    ensures
        alerts_fired(m, alerts, source) == (m, Seq::<OpsEventView>::empty()),
    decreases alerts.len(),
{
    if alerts.len() > 0 {
        law_unwatched_contact_fires_nothing(m, alerts.drop_last(), source);
    }
}

/// Every alert that fires leaves an open ticket until it is acknowledged.
pub proof fn law_fired_alert_opens_ticket(m: OpsView, a: AlertView)
    ensures
        alert_fired(m, a).0.tickets.contains_key(a.id),
        alert_fired(m, a).0.tickets[a.id].status == "open"@,
        alert_fired(m, a).1[0] == (OpsEventView::TicketOpened { alert_id: a.id, status: "open"@ }),
{
}

/// An ops assertion `{runbook_url_included: v}` fails, with "Runbook URL
/// was not included", exactly when `v` is `true` and no runbook URL has
/// been recorded; Slack notifications do not change that.
pub proof fn law_runbook_assertion_checks_runbooks(
    m: OpsView,
    v: ValueView,
    slack: Map<Seq<char>, Option<Seq<char>>>,
)
    ensures
        assertion_failures(m, seq![("runbook_url_included"@, v)]) == Ok::<Seq<Seq<char>>, Seq<char>>(
            if v == ValueView::Bool(true) && m.runbooks.len() == 0 {
                seq!["Runbook URL was not included"@]
            } else {
                Seq::empty()
            },
        ),
        assertion_failures(OpsView { slack, ..m }, seq![("runbook_url_included"@, v)]) == assertion_failures(
            m,
            seq![("runbook_url_included"@, v)],
        ),
{
    reveal_strlit("runbook_url_included");
    reveal_strlit("slack_notification_sent");
    reveal_strlit("phone_call_triggered");
    let e = seq![("runbook_url_included"@, v)];
    assert(e.drop_last() =~= Seq::<(Seq<char>, ValueView)>::empty());
    assert("runbook_url_included"@[0] == 'r');
    assert("slack_notification_sent"@[0] == 's');
    assert("phone_call_triggered"@[0] == 'p');
    assert("runbook_url_included"@ != "slack_notification_sent"@);
    assert("runbook_url_included"@ != "phone_call_triggered"@);
    assert(seq![("Runbook URL was not included"@)] =~= Seq::<Seq<char>>::empty().push("Runbook URL was not included"@));
    let m2 = OpsView { slack, ..m };
    assert(e.last() == ("runbook_url_included"@, v));
    assert(assertion_failures(m, e.drop_last()) == Ok::<Seq<Seq<char>>, Seq<char>>(Seq::empty()));
    assert(assertion_failures(m2, e.drop_last()) == Ok::<Seq<Seq<char>>, Seq<char>>(Seq::empty()));
    assert(assertion_failure(m, "runbook_url_included"@, v) == assertion_failure(m2, "runbook_url_included"@, v));
    assert(assertion_failure(m, "runbook_url_included"@, v) == Ok::<Option<Seq<char>>, Seq<char>>(
        if v == ValueView::Bool(true) && m.runbooks.len() == 0 {
            Some("Runbook URL was not included"@)
        } else {
            None
        },
    ));
}

} // verus!
