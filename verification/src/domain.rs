//! The domain settings a run takes from a scenario's configuration
//! sections: failover windows, the backup WAN status, the access users
//! that drifted, and the commissioning checklist size. Comfort settings,
//! which are floating-point, are taken by the caller.

use vstd::prelude::*;

use crate::scenario::ScenarioError;
use crate::strmap::StrMap;
use crate::text::{str_eq, string_texts};
use crate::timing::{duration_millis, parse_duration};
use crate::value::{lemma_view_list, value_get, view_get, view_list, view_str, Value, ValueView};

verus! {

/// The text items of a list, in order; other items are skipped.
pub open spec fn text_items(items: Seq<ValueView>) -> Seq<Seq<char>>
    decreases items.len(),
{
    if items.len() == 0 {
        Seq::empty()
    } else {
        text_items(items.drop_last()) + match view_str(items.last()) {
            Some(s) => seq![s],
            None => Seq::<Seq<char>>::empty(),
        }
    }
}

/// The text items of a value that is a list; nothing otherwise.
pub open spec fn texts_of(v: Option<ValueView>) -> Seq<Seq<char>> {
    match v {
        Some(ValueView::List(items)) => text_items(items),
        _ => Seq::empty(),
    }
}

/// The items of `users` that `known` does not hold, in order.
pub open spec fn unknown_users(users: Seq<Seq<char>>, known: Seq<Seq<char>>) -> Seq<Seq<char>>
    decreases users.len(),
{
    if users.len() == 0 {
        Seq::empty()
    } else {
        unknown_users(users.drop_last(), known) + if known.contains(users.last()) {
            Seq::<Seq<char>>::empty()
        } else {
            seq![users.last()]
        }
    }
}

/// How many devices the rooms list: each room's `devices` list counts by
/// its length; a room without one counts nothing.
pub open spec fn room_device_total(rooms: Seq<ValueView>) -> nat
    decreases rooms.len(),
{
    if rooms.len() == 0 {
        0
    } else {
        room_device_total(rooms.drop_last()) + match view_get(rooms.last(), "devices"@) {
            Some(ValueView::List(ds)) => ds.len(),
            _ => 0,
        }
    }
}

pub open spec fn section_value(section: Map<Seq<char>, Value>, key: Seq<char>) -> Option<ValueView> {
    if section.contains_key(key) {
        Some(section[key]@)
    } else {
        None
    }
}

/// A text value of a section.
pub open spec fn section_text(section: Map<Seq<char>, Value>, key: Seq<char>) -> Option<Seq<char>> {
    match section_value(section, key) {
        Some(v) => view_str(v),
        None => None,
    }
}

/// The `status` text of a section's entry.
pub open spec fn status_text(section: Map<Seq<char>, Value>, key: Seq<char>) -> Option<Seq<char>> {
    match section_value(section, key) {
        Some(v) => match view_get(v, "status"@) {
            Some(s) => view_str(s),
            None => None,
        },
        None => None,
    }
}

/// The failover window text of a section: `failover.expected_within`.
pub open spec fn window_text(section: Map<Seq<char>, Value>) -> Option<Seq<char>> {
    match section_value(section, "failover"@) {
        Some(f) => match view_get(f, "expected_within"@) {
            Some(w) => view_str(w),
            None => None,
        },
        None => None,
    }
}

/// The failover window text of a section when it is not a duration.
pub open spec fn window_error(section: Map<Seq<char>, Value>) -> Option<Seq<char>> {
    match window_text(section) {
        Some(w) => if duration_millis(w) is None {
            Some(w)
        } else {
            None
        },
        None => None,
    }
}

/// The text items of a list value, in order; nothing when the value is
/// missing or not a list.
pub fn string_sequence(value: Option<&Value>) -> (r: Vec<String>)
    ensures
        string_texts(r@) == texts_of(
            match value {
                Some(v) => Some(v@),
                None => None,
            },
        ),
{
    let mut r: Vec<String> = Vec::new();
    let items = match value {
        Some(v) => match v.as_list() {
            Some(items) => items,
            None => {
                return r;
            },
        },
        None => {
            return r;
        },
    };
    proof {
        lemma_view_list(items@);
    }
    let ghost all = view_list(items@);
    let mut i: usize = 0;
    assert(all.take(0) =~= Seq::<ValueView>::empty());
    while i < items.len()
        invariant
            i <= items.len(),
            all == view_list(items@),
            all.len() == items.len(),
            forall|j: int| 0 <= j < items.len() ==> #[trigger] all[j] == items@[j]@,
            string_texts(r@) == text_items(all.take(i as int)),
        decreases items.len() - i,
    {
        assert(all.take(i + 1).drop_last() =~= all.take(i as int));
        assert(all.take(i + 1).last() == items@[i as int]@);
        let ghost before = string_texts(r@);
        match items[i].as_str() {
            Some(s) => {
                r.push(s.clone());
                assert(string_texts(r@) =~= before + seq![s@]);
            },
            None => {
                assert(before + Seq::<Seq<char>>::empty() =~= before);
            },
        }
        i = i + 1;
    }
    assert(all.take(items.len() as int) =~= all);
    r
}

fn contains_text(items: &Vec<String>, x: &String) -> (b: bool)
    ensures
        b == string_texts(items@).contains(x@),
{
    let mut i: usize = 0;
    while i < items.len()
        invariant
            i <= items.len(),
            forall|j: int| 0 <= j < i ==> items@[j]@ != x@,
        decreases items.len() - i,
    {
        if str_eq(items[i].as_str(), x.as_str()) {
            assert(string_texts(items@)[i as int] == x@);
            return true;
        }
        i = i + 1;
    }
    proof {
        if string_texts(items@).contains(x@) {
            let j = choose|j: int| 0 <= j < string_texts(items@).len() && string_texts(items@)[j] == x@;
            assert(items@[j]@ == x@);
        }
    }
    false
}

/// The users of the access system group that the identity group lacks, in
/// the access system's order.
pub fn unexpected_access_users(inputs: &StrMap<Value>) -> (r: Vec<String>)
    ensures
        string_texts(r@) == unknown_users(
            texts_of(section_value(inputs@, "access_system_group"@)),
            texts_of(section_value(inputs@, "identity_group"@)),
        ),
{
    let identity = string_sequence(inputs.get("identity_group"));
    let access = string_sequence(inputs.get("access_system_group"));
    let ghost users = string_texts(access@);
    let ghost known = string_texts(identity@);
    let mut r: Vec<String> = Vec::new();
    let mut i: usize = 0;
    assert(users.take(0) =~= Seq::<Seq<char>>::empty());
    while i < access.len()
        invariant
            i <= access.len(),
            users == string_texts(access@),
            known == string_texts(identity@),
            string_texts(r@) == unknown_users(users.take(i as int), known),
        decreases access.len() - i,
    {
        assert(users.take(i + 1).drop_last() =~= users.take(i as int));
        assert(users.take(i + 1).last() == access@[i as int]@);
        let ghost before = string_texts(r@);
        if !contains_text(&identity, &access[i]) {
            r.push(access[i].clone());
            assert(string_texts(r@) =~= before + seq![access@[i as int]@]);
        } else {
            assert(before + Seq::<Seq<char>>::empty() =~= before);
        }
        i = i + 1;
    }
    assert(users.take(access.len() as int) =~= users);
    r
}

/// How many devices the commissioning rooms list, capped at `usize::MAX`.
pub fn commissioning_check_count(commissioning: &StrMap<Value>) -> (n: usize)
    ensures
        n == match section_value(commissioning@, "rooms"@) {
            Some(ValueView::List(rooms)) => if room_device_total(rooms) <= usize::MAX {
                room_device_total(rooms)
            } else {
                usize::MAX as nat
            },
            _ => 0,
        },
{
    let rooms = match commissioning.get("rooms") {
        Some(v) => match v.as_list() {
            Some(items) => items,
            None => {
                return 0;
            },
        },
        None => {
            return 0;
        },
    };
    proof {
        lemma_view_list(rooms@);
    }
    let ghost all = view_list(rooms@);
    let mut n: usize = 0;
    let mut capped = false;
    let mut i: usize = 0;
    assert(all.take(0) =~= Seq::<ValueView>::empty());
    while i < rooms.len()
        invariant
            i <= rooms.len(),
            all == view_list(rooms@),
            all.len() == rooms.len(),
            forall|j: int| 0 <= j < rooms.len() ==> #[trigger] all[j] == rooms@[j]@,
            capped ==> room_device_total(all.take(i as int)) > usize::MAX && n == usize::MAX,
            !capped ==> n == room_device_total(all.take(i as int)),
        decreases rooms.len() - i,
    {
        assert(all.take(i + 1).drop_last() =~= all.take(i as int));
        assert(all.take(i + 1).last() == rooms@[i as int]@);
        let count: usize = match value_get(&rooms[i], "devices") {
            Some(d) => match d.as_list() {
                Some(ds) => {
                    proof {
                        lemma_view_list(ds@);
                    }
                    ds.len()
                },
                None => 0,
            },
            None => 0,
        };
        if !capped {
            if n > usize::MAX - count {
                capped = true;
                n = usize::MAX;
            } else {
                n = n + count;
            }
        }
        i = i + 1;
    }
    assert(all.take(rooms.len() as int) =~= all);
    n
}

/// The `status` text of a section's entry.
pub fn status_at(config: &StrMap<Value>, key: &str) -> (r: Option<String>)
    ensures
        crate::report::opt_chars(r) == status_text(config@, key@),
{
    match config.get(key) {
        Some(v) => match value_get(v, "status") {
            Some(s) => match s.as_str() {
                Some(t) => Some(t.clone()),
                None => None,
            },
            None => None,
        },
        None => None,
    }
}

/// A text value of a section.
pub fn string_value(map: &StrMap<Value>, key: &str) -> (r: Option<String>)
    ensures
        crate::report::opt_chars(r) == section_text(map@, key@),
{
    match map.get(key) {
        Some(v) => match v.as_str() {
            Some(t) => Some(t.clone()),
            None => None,
        },
        None => None,
    }
}

/// The failover window of a section in milliseconds, when it declares
/// one; a window that is not a duration is an error.
pub fn expected_within(config: &StrMap<Value>) -> (r: Result<Option<i64>, ScenarioError>)
    ensures
        match window_text(config@) {
            None => r == Ok::<Option<i64>, ScenarioError>(None),
            Some(w) => match duration_millis(w) {
                Some(ms) => r matches Ok(Some(x)) && x == ms,
                None => r matches Err(ScenarioError::InvalidDuration(v)) && v@ == w,
            },
        },
{
    let failover = match config.get("failover") {
        Some(f) => f,
        None => {
            return Ok(None);
        },
    };
    let window = match value_get(failover, "expected_within") {
        Some(w) => match w.as_str() {
            Some(t) => t,
            None => {
                return Ok(None);
            },
        },
        None => {
            return Ok(None);
        },
    };
    match parse_duration(window.as_str()) {
        Ok(ms) => Ok(Some(ms)),
        Err(e) => Err(e),
    }
}

/// The domain settings of a run, apart from comfort.
pub struct DomainRuntimeConfig {
    pub edge_expected_within: Option<i64>,
    pub wan_expected_within: Option<i64>,
    pub wan_backup_status: Option<String>,
    pub unexpected_users: Vec<String>,
    pub commissioning_check_count: usize,
    pub commissioning_site: Option<String>,
}

/// What the settings read from the `edge`, `wan`, `inputs` and
/// `commissioning` sections hold.
pub open spec fn sections_read(
    c: DomainRuntimeConfig,
    edge: Map<Seq<char>, Value>,
    wan: Map<Seq<char>, Value>,
    inputs: Map<Seq<char>, Value>,
    commissioning: Map<Seq<char>, Value>,
) -> bool {
    &&& c.edge_expected_within == match window_text(edge) {
        Some(w) => Some(duration_millis(w)->Some_0 as i64),
        None => None,
    }
    &&& c.wan_expected_within == match window_text(wan) {
        Some(w) => Some(duration_millis(w)->Some_0 as i64),
        None => None,
    }
    &&& crate::report::opt_chars(c.wan_backup_status) == status_text(wan, "backup"@)
    &&& string_texts(c.unexpected_users@) == unknown_users(
        texts_of(section_value(inputs, "access_system_group"@)),
        texts_of(section_value(inputs, "identity_group"@)),
    )
    &&& crate::report::opt_chars(c.commissioning_site) == section_text(commissioning, "site"@)
}

impl DomainRuntimeConfig {
    /// Reads the settings from the scenario's `edge`, `wan`, `inputs` and
    /// `commissioning` sections; a failover window that is not a duration
    /// is an error (the edge's first).
    pub fn try_from_sections(
        edge: &StrMap<Value>,
        wan: &StrMap<Value>,
        inputs: &StrMap<Value>,
        commissioning: &StrMap<Value>,
    ) -> (r: Result<DomainRuntimeConfig, ScenarioError>)
        ensures
            match r {
                Ok(c) => {
                    &&& window_error(edge@) is None
                    &&& window_error(wan@) is None
                    &&& sections_read(c, edge@, wan@, inputs@, commissioning@)
                },
                Err(ScenarioError::InvalidDuration(v)) => match window_error(edge@) {
                    Some(w) => v@ == w,
                    None => window_error(wan@) == Some(v@),
                },
                Err(_) => false,
            },
    {
        let edge_expected_within = match expected_within(edge) {
            Ok(w) => w,
            Err(e) => {
                return Err(e);
            },
        };
        let wan_expected_within = match expected_within(wan) {
            Ok(w) => w,
            Err(e) => {
                return Err(e);
            },
        };
        Ok(DomainRuntimeConfig {
            edge_expected_within,
            wan_expected_within,
            wan_backup_status: status_at(wan, "backup"),
            unexpected_users: unexpected_access_users(inputs),
            commissioning_check_count: commissioning_check_count(commissioning),
            commissioning_site: string_value(commissioning, "site"),
        })
    }
}

} // verus!
