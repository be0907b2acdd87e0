//! Device-level mocks driven by scenarios: the command capability table,
//! DALI-like lighting fixtures with scene targets and command-drop fault
//! injection, and binary contact inputs.

use vstd::prelude::*;

use crate::strmap::{clone_nested, nested_entries, StrMap};
use crate::text::{concat2, i64_to_string, push_str, signed_decimal, str_eq, to_owned};
use crate::value::{
    lemma_view_list, mapping_get, view_entries, view_get, view_i64, view_list, view_str, Value,
    ValueView,
};

verus! {

// ---------------------------------------------------------------------------
// Command capabilities
// ---------------------------------------------------------------------------

pub open spec fn supported_command(device_type: Seq<char>, action: Seq<char>) -> bool {
    if device_type == "smart_lock"@ {
        action == "lock"@ || action == "unlock"@
    } else if device_type == "light"@ {
        action == "turn_on"@ || action == "turn_off"@ || action == "set_brightness"@
    } else if device_type == "climate"@ {
        action == "set_mode"@ || action == "set_temperature"@
    } else if device_type == "cover"@ {
        action == "open"@ || action == "close"@ || action == "set_position"@
    } else if device_type == "room_controller"@ {
        action == "activate_scene"@
    } else {
        false
    }
}

pub open spec fn value_required(device_type: Seq<char>, action: Seq<char>) -> bool {
    (device_type == "light"@ && action == "set_brightness"@) || (device_type == "climate"@
        && action == "set_mode"@) || (device_type == "climate"@ && action == "set_temperature"@)
        || (device_type == "cover"@ && action == "set_position"@)
}

/// Whether `action` is a capability of `device_type`.
pub fn command_is_supported(device_type: &str, action: &str) -> (r: bool)
    ensures
        r == supported_command(device_type@, action@),
{
    if str_eq(device_type, "smart_lock") {
        str_eq(action, "lock") || str_eq(action, "unlock")
    } else if str_eq(device_type, "light") {
        str_eq(action, "turn_on") || str_eq(action, "turn_off") || str_eq(action, "set_brightness")
    } else if str_eq(device_type, "climate") {
        str_eq(action, "set_mode") || str_eq(action, "set_temperature")
    } else if str_eq(device_type, "cover") {
        str_eq(action, "open") || str_eq(action, "close") || str_eq(action, "set_position")
    } else if str_eq(device_type, "room_controller") {
        str_eq(action, "activate_scene")
    } else {
        false
    }
}

/// Whether `action` on `device_type` is meaningless without a value payload.
pub fn command_requires_value(device_type: &str, action: &str) -> (r: bool)
    ensures
        r == value_required(device_type@, action@),
{
    (str_eq(device_type, "light") && str_eq(action, "set_brightness")) || (str_eq(
        device_type,
        "climate",
    ) && str_eq(action, "set_mode")) || (str_eq(device_type, "climate") && str_eq(
        action,
        "set_temperature",
    )) || (str_eq(device_type, "cover") && str_eq(action, "set_position"))
}

/// The state field a command sets and the value it sets it to, if any.
pub open spec fn command_state_update(
    device_type: Seq<char>,
    action: Seq<char>,
    value: Option<ValueView>,
) -> Option<(Seq<char>, ValueView)> {
    if device_type == "smart_lock"@ && action == "lock"@ {
        Some(("lock_state"@, ValueView::Str("locked"@)))
    } else if device_type == "smart_lock"@ && action == "unlock"@ {
        Some(("lock_state"@, ValueView::Str("unlocked"@)))
    } else if device_type == "light"@ && action == "turn_on"@ {
        Some(("power"@, ValueView::Str("on"@)))
    } else if device_type == "light"@ && action == "turn_off"@ {
        Some(("power"@, ValueView::Str("off"@)))
    } else if device_type == "light"@ && action == "set_brightness"@ {
        match value {
            Some(v) => Some(("brightness"@, v)),
            None => None,
        }
    } else if device_type == "climate"@ && action == "set_mode"@ {
        match value {
            Some(v) => Some(("mode"@, v)),
            None => None,
        }
    } else if device_type == "climate"@ && action == "set_temperature"@ {
        match value {
            Some(v) => Some(("setpoint_celsius"@, v)),
            None => None,
        }
    } else if device_type == "cover"@ && action == "open"@ {
        Some(("position"@, ValueView::Int(100)))
    } else if device_type == "cover"@ && action == "close"@ {
        Some(("position"@, ValueView::Int(0)))
    } else if device_type == "cover"@ && action == "set_position"@ {
        match value {
            Some(v) => Some(("position"@, v)),
            None => None,
        }
    } else {
        None
    }
}

/// Applies the state change a device command implies to a device state map.
pub fn apply_command_state(
    device_type: &str,
    action: &str,
    value: Option<&Value>,
    state: &mut StrMap<Value>,
)
    ensures
        match command_state_update(
            device_type@,
            action@,
            match value {
                Some(v) => Some(v@),
                None => None,
            },
        ) {
            Some((key, v)) => final(state)@ == old(state)@.insert(key, final(state)@[key])
                && final(state)@[key]@ == v,
            None => final(state)@ == old(state)@,
        },
{
    let update: Option<(&str, Value)> = if str_eq(device_type, "smart_lock") && str_eq(
        action,
        "lock",
    ) {
        Some(("lock_state", Value::text("locked")))
    } else if str_eq(device_type, "smart_lock") && str_eq(action, "unlock") {
        Some(("lock_state", Value::text("unlocked")))
    } else if str_eq(device_type, "light") && str_eq(action, "turn_on") {
        Some(("power", Value::text("on")))
    } else if str_eq(device_type, "light") && str_eq(action, "turn_off") {
        Some(("power", Value::text("off")))
    } else if str_eq(device_type, "light") && str_eq(action, "set_brightness") {
        match value {
            Some(v) => Some(("brightness", v.deep_clone())),
            None => None,
        }
    } else if str_eq(device_type, "climate") && str_eq(action, "set_mode") {
        match value {
            Some(v) => Some(("mode", v.deep_clone())),
            None => None,
        }
    } else if str_eq(device_type, "climate") && str_eq(action, "set_temperature") {
        match value {
            Some(v) => Some(("setpoint_celsius", v.deep_clone())),
            None => None,
        }
    } else if str_eq(device_type, "cover") && str_eq(action, "open") {
        Some(("position", Value::UInt(100)))
    } else if str_eq(device_type, "cover") && str_eq(action, "close") {
        Some(("position", Value::UInt(0)))
    } else if str_eq(device_type, "cover") && str_eq(action, "set_position") {
        match value {
            Some(v) => Some(("position", v.deep_clone())),
            None => None,
        }
    } else {
        None
    };
    match update {
        Some((key, v)) => {
            state.insert(to_owned(key), v);
        },
        None => {},
    }
}

// ---------------------------------------------------------------------------
// Errors
// ---------------------------------------------------------------------------

/// Errors of the Modbus, lighting and contact models.
#[derive(Debug, PartialEq, Eq)]
pub enum DeviceModelError {
    InvalidModbusConfig(String),
    UnknownModbusDevice(String),
    UnknownModbusRegister { device: String, register: u32 },
    ReadOnlyModbusRegister { device: String, register: u32 },
    InvalidLightingConfig(String),
    UnknownScene(String),
    UnknownFixture(String),
    InvalidContactConfig(String),
    UnknownContact(String),
}

impl DeviceModelError {
    /// The human-readable message of the error.
    pub fn message(&self) -> (m: String)
        ensures
            match self {
                DeviceModelError::InvalidModbusConfig(d) => m@ == "invalid Modbus config: "@ + d@,
                DeviceModelError::UnknownModbusDevice(d) => m@ == "unknown Modbus device "@ + d@,
                DeviceModelError::UnknownModbusRegister { device, register } => m@
                    == "unknown Modbus register "@ + device@ + ":"@ + crate::text::decimal(
                    *register as nat,
                ),
                DeviceModelError::ReadOnlyModbusRegister { device, register } => m@
                    == "Modbus register "@ + device@ + ":"@ + crate::text::decimal(*register as nat)
                    + " is read-only"@,
                DeviceModelError::InvalidLightingConfig(d) => m@ == "invalid DALI lighting config: "@
                    + d@,
                DeviceModelError::UnknownScene(d) => m@ == "unknown DALI scene "@ + d@,
                DeviceModelError::UnknownFixture(d) => m@ == "unknown DALI fixture "@ + d@,
                DeviceModelError::InvalidContactConfig(d) => m@ == "invalid contact config: "@ + d@,
                DeviceModelError::UnknownContact(d) => m@ == "unknown contact input "@ + d@,
            },
    {
        match self {
            DeviceModelError::InvalidModbusConfig(d) => concat2(
                "invalid Modbus config: ",
                d.as_str(),
            ),
            DeviceModelError::UnknownModbusDevice(d) => concat2(
                "unknown Modbus device ",
                d.as_str(),
            ),
            DeviceModelError::UnknownModbusRegister { device, register } => {
                let mut m = concat2("unknown Modbus register ", device.as_str());
                push_str(&mut m, ":");
                let n = crate::text::u64_to_string(*register as u64);
                push_str(&mut m, n.as_str());
                m
            },
            DeviceModelError::ReadOnlyModbusRegister { device, register } => {
                let mut m = concat2("Modbus register ", device.as_str());
                push_str(&mut m, ":");
                let n = crate::text::u64_to_string(*register as u64);
                push_str(&mut m, n.as_str());
                push_str(&mut m, " is read-only");
                m
            },
            DeviceModelError::InvalidLightingConfig(d) => concat2(
                "invalid DALI lighting config: ",
                d.as_str(),
            ),
            DeviceModelError::UnknownScene(d) => concat2("unknown DALI scene ", d.as_str()),
            DeviceModelError::UnknownFixture(d) => concat2("unknown DALI fixture ", d.as_str()),
            DeviceModelError::InvalidContactConfig(d) => concat2(
                "invalid contact config: ",
                d.as_str(),
            ),
            DeviceModelError::UnknownContact(d) => concat2("unknown contact input ", d.as_str()),
        }
    }
}

// ---------------------------------------------------------------------------
// Lighting
// ---------------------------------------------------------------------------

#[derive(Debug, PartialEq, Eq)]
pub enum LightingEvent {
    LevelChanged { fixture: String, level: i64 },
    CommandDropped { fixture: String },
}

pub enum LightingEventView {
    LevelChanged { fixture: Seq<char>, level: i64 },
    CommandDropped { fixture: Seq<char> },
}

impl View for LightingEvent {
    type V = LightingEventView;

    open spec fn view(&self) -> LightingEventView {
        match self {
            LightingEvent::LevelChanged { fixture, level } => LightingEventView::LevelChanged {
                fixture: fixture@,
                level: *level,
            },
            LightingEvent::CommandDropped { fixture } => LightingEventView::CommandDropped {
                fixture: fixture@,
            },
        }
    }
}

/// DALI-like lighting model: per-fixture levels, named scene targets and
/// the set of fixtures whose commands are dropped.
#[derive(Debug)]
pub struct LightingModel {
    levels: StrMap<i64>,
    scene_targets: StrMap<StrMap<i64>>,
    command_drops: StrMap<()>,
}

pub struct LightingView {
    pub levels: Map<Seq<char>, i64>,
    /// Scene name to its fixture targets, in fixture-name order.
    pub scenes: Map<Seq<char>, Seq<(Seq<char>, i64)>>,
    pub drops: Set<Seq<char>>,
}

impl View for LightingModel {
    type V = LightingView;

    closed spec fn view(&self) -> LightingView {
        LightingView {
            levels: self.levels@,
            scenes: self.scene_targets@.map_values(|m: StrMap<i64>| m.entry_seq()),
            drops: self.command_drops@.dom(),
        }
    }
}

/// Events of activating a scene with `targets`, in target order.
pub open spec fn scene_events(targets: Seq<(Seq<char>, i64)>, drops: Set<Seq<char>>) -> Seq<
    LightingEventView,
> {
    targets.map_values(
        |t: (Seq<char>, i64)|
            if drops.contains(t.0) {
                LightingEventView::CommandDropped { fixture: t.0 }
            } else {
                LightingEventView::LevelChanged { fixture: t.0, level: t.1 }
            },
    )
}

/// Levels after a scene activation: every target not dropped takes its level.
pub open spec fn levels_after_scene(
    levels: Map<Seq<char>, i64>,
    targets: Seq<(Seq<char>, i64)>,
    drops: Set<Seq<char>>,
) -> Map<Seq<char>, i64>
    decreases targets.len(),
{
    if targets.len() == 0 {
        levels
    } else {
        let prior = levels_after_scene(levels, targets.drop_last(), drops);
        if drops.contains(targets.last().0) {
            prior
        } else {
            prior.insert(targets.last().0, targets.last().1)
        }
    }
}

/// The consistency message for one fixture that missed its target.
pub open spec fn consistency_message(fixture: Seq<char>, expected: i64, actual: i64) -> Seq<char> {
    fixture + " expected level "@ + signed_decimal(expected as int) + ", actual "@ + signed_decimal(
        actual as int,
    )
}

/// Messages for every target whose fixture level differs, in target order
/// (a fixture without a level counts as level 0).
pub open spec fn consistency_failures(
    levels: Map<Seq<char>, i64>,
    targets: Seq<(Seq<char>, i64)>,
) -> Seq<Seq<char>>
    decreases targets.len(),
{
    if targets.len() == 0 {
        Seq::empty()
    } else {
        let prior = consistency_failures(levels, targets.drop_last());
        let t = targets.last();
        let actual = if levels.contains_key(t.0) {
            levels[t.0]
        } else {
            0
        };
        if actual != t.1 {
            prior.push(consistency_message(t.0, t.1, actual))
        } else {
            prior
        }
    }
}

/// The first scene target, in scene then fixture order, naming a fixture
/// without a level.
pub open spec fn first_missing_target(
    scenes: Seq<Seq<(Seq<char>, i64)>>,
    levels: Map<Seq<char>, i64>,
) -> Option<Seq<char>>
    decreases scenes.len(),
{
    if scenes.len() == 0 {
        None
    } else {
        match first_missing_target(scenes.drop_last(), levels) {
            Some(f) => Some(f),
            None => first_missing_in(scenes.last(), levels),
        }
    }
}

pub open spec fn first_missing_in(targets: Seq<(Seq<char>, i64)>, levels: Map<Seq<char>, i64>) -> Option<
    Seq<char>,
>
    decreases targets.len(),
{
    if targets.len() == 0 {
        None
    } else {
        match first_missing_in(targets.drop_last(), levels) {
            Some(f) => Some(f),
            None => if levels.contains_key(targets.last().0) {
                None
            } else {
                Some(targets.last().0)
            },
        }
    }
}

/// Fixture levels that a `fixtures:` list declares, or the error message of
/// its first malformed entry.
pub open spec fn fixture_levels(items: Seq<ValueView>) -> Result<Map<Seq<char>, i64>, Seq<char>>
    decreases items.len(),
{
    if items.len() == 0 {
        Ok(Map::empty())
    } else {
        match fixture_levels(items.drop_last()) {
            Err(e) => Err(e),
            Ok(levels) => {
                let f = items.last();
                if !(f is Mapping) {
                    Err("fixtures[] entries must be YAML maps"@)
                } else {
                    match view_get(f, "id"@) {
                        Some(id_value) => match view_str(id_value) {
                            Some(id) => {
                                let level = match view_get(f, "level"@) {
                                    Some(l) => match view_i64(l) {
                                        Some(n) => n as i64,
                                        None => 0,
                                    },
                                    None => 0,
                                };
                                Ok(levels.insert(id, level))
                            },
                            None => Err("fixtures[].id must be a string"@),
                        },
                        None => Err("fixtures[].id must be a string"@),
                    }
                }
            },
        }
    }
}

/// The fixture list of a lighting config, when it is a list.
pub open spec fn fixture_list(config: Map<Seq<char>, ValueView>) -> Option<Seq<ValueView>> {
    if config.contains_key("fixtures"@) {
        match config["fixtures"@] {
            ValueView::List(items) => Some(items),
            _ => None,
        }
    } else {
        None
    }
}

/// The fixture levels of each scene, in scene then fixture order.
pub open spec fn scene_entries_of(scenes: StrMap<StrMap<i64>>) -> Seq<Seq<(Seq<char>, i64)>> {
    scenes.entry_seq().map_values(|e: (Seq<char>, StrMap<i64>)| e.1.entry_seq())
}

impl LightingModel {
    pub closed spec fn scene_entries(&self) -> Seq<Seq<(Seq<char>, i64)>> {
        self.scene_targets.entry_seq().map_values(|e: (Seq<char>, StrMap<i64>)| e.1.entry_seq())
    }

    /// An empty model: no fixtures, scenes or dropped commands.
    pub fn new() -> (m: Self)
        ensures
            m@.levels == Map::<Seq<char>, i64>::empty(),
            m@.scenes == Map::<Seq<char>, Seq<(Seq<char>, i64)>>::empty(),
            m@.drops == Set::<Seq<char>>::empty(),
    {
        let m = LightingModel {
            levels: StrMap::new(),
            scene_targets: StrMap::new(),
            command_drops: StrMap::new(),
        };
        assert(m@.scenes =~= Map::<Seq<char>, Seq<(Seq<char>, i64)>>::empty());
        assert(m@.drops =~= Set::<Seq<char>>::empty());
        m
    }

    /// Builds the model from a `lighting:` config and the scene targets.
    pub fn try_from_config(lighting: &StrMap<Value>, scenes: &StrMap<StrMap<i64>>) -> (r: Result<
        Self,
        DeviceModelError,
    >)
        ensures
            match r {
                Ok(m) => m@.scenes == scenes@.map_values(|t: StrMap<i64>| t.entry_seq())
                    && m.scene_entries() == scene_entries_of(*scenes) && m@.drops == Set::<Seq<char>>::empty() && match fixture_list(
                    lighting@.map_values(|v: Value| v@),
                ) {
                    Some(items) => fixture_levels(items) == Ok::<Map<Seq<char>, i64>, Seq<char>>(
                        m@.levels,
                    ),
                    None => m@.levels == Map::<Seq<char>, i64>::empty(),
                },
                Err(DeviceModelError::InvalidLightingConfig(msg)) => match fixture_list(
                    lighting@.map_values(|v: Value| v@),
                ) {
                    Some(items) => fixture_levels(items) == Err::<Map<Seq<char>, i64>, Seq<char>>(
                        msg@,
                    ),
                    None => false,
                },
                Err(_) => false,
            },
    {
        let scene_targets = clone_nested(scenes);
        let ghost scenes_view = scenes@.map_values(|t: StrMap<i64>| t.entry_seq());
        proof {
            use_type_invariant(scenes);
            use_type_invariant(&scene_targets);
            scenes.lemma_wf();
            scene_targets.lemma_wf();
            assert forall|k: Seq<char>| #[trigger] scene_targets@.contains_key(k) implies scene_targets@[k].entry_seq()
                == scenes@[k].entry_seq() by {
                let j = choose|j: int|
                    0 <= j < scene_targets.entry_seq().len() && scene_targets.entry_seq()[j].0 == k;
                assert(nested_entries(&scene_targets)[j] == nested_entries(scenes)[j]);
            }
            assert(scene_targets@.map_values(|t: StrMap<i64>| t.entry_seq()) =~= scenes_view);
            assert forall|j: int| 0 <= j < scene_entries_of(scene_targets).len() implies #[trigger] scene_entries_of(
                scene_targets,
            )[j] == scene_entries_of(*scenes)[j] by {
                assert(nested_entries(&scene_targets)[j] == nested_entries(scenes)[j]);
            }
            assert(scene_entries_of(scene_targets) =~= scene_entries_of(*scenes));
        }
        let fixtures = match lighting.get("fixtures") {
            Some(v) => match v.as_list() {
                Some(items) => items,
                None => {
                    let m = LightingModel {
                        levels: StrMap::new(),
                        scene_targets,
                        command_drops: StrMap::new(),
                    };
                    assert(m@.drops =~= Set::<Seq<char>>::empty());
                    return Ok(m);
                },
            },
            None => {
                let m = LightingModel {
                    levels: StrMap::new(),
                    scene_targets,
                    command_drops: StrMap::new(),
                };
                assert(m@.drops =~= Set::<Seq<char>>::empty());
                return Ok(m);
            },
        };
        let ghost items = view_list(fixtures@);
        proof {
            lemma_view_list(fixtures@);
            assert(fixture_list(lighting@.map_values(|v: Value| v@)) == Some(items));
        }
        let mut levels: StrMap<i64> = StrMap::new();
        let mut i: usize = 0;
        while i < fixtures.len()
            invariant
                i <= fixtures.len(),
                items == view_list(fixtures@),
                fixture_list(lighting@.map_values(|v: Value| v@)) == Some(items),
                items.len() == fixtures.len(),
                forall|j: int| 0 <= j < items.len() ==> #[trigger] items[j] == fixtures@[j]@,
                fixture_levels(items.take(i as int)) == Ok::<Map<Seq<char>, i64>, Seq<char>>(
                    levels@,
                ),
            decreases fixtures.len() - i,
        {
            let ghost prefix = items.take(i + 1);
            assert(prefix.drop_last() =~= items.take(i as int));
            assert(prefix.last() == fixtures@[i as int]@);
            let entries = match fixtures[i].as_mapping() {
                Some(entries) => entries,
                None => {
                    let msg = to_owned("fixtures[] entries must be YAML maps");
                    proof {
                        assert(fixture_levels(prefix) == Err::<Map<Seq<char>, i64>, Seq<char>>(msg@));
                        lemma_prefix_error(items, i as int);
                    }
                    return Err(DeviceModelError::InvalidLightingConfig(msg));
                },
            };
            let id = match mapping_get(entries, "id") {
                Some(v) => match v.as_str() {
                    Some(s) => s,
                    None => {
                        proof {
                            lemma_prefix_error(items, i as int);
                        }
                        return Err(
                            DeviceModelError::InvalidLightingConfig(
                                to_owned("fixtures[].id must be a string"),
                            ),
                        );
                    },
                },
                None => {
                    proof {
                        lemma_prefix_error(items, i as int);
                    }
                    return Err(
                        DeviceModelError::InvalidLightingConfig(
                            to_owned("fixtures[].id must be a string"),
                        ),
                    );
                },
            };
            let level = match mapping_get(entries, "level") {
                Some(v) => match v.as_i64() {
                    Some(n) => n,
                    None => 0,
                },
                None => 0,
            };
            levels.insert(id.clone(), level);
            i = i + 1;
        }
        assert(items.take(fixtures.len() as int) =~= items);
        let m = LightingModel { levels, scene_targets, command_drops: StrMap::new() };
        assert(m@.drops =~= Set::<Seq<char>>::empty());
        Ok(m)
    }

    /// Builds the model from config, keeping the scenes and no fixtures when
    /// the config is malformed.
    pub fn from_config(lighting: &StrMap<Value>, scenes: &StrMap<StrMap<i64>>) -> (m: Self)
        ensures
            m@.scenes == scenes@.map_values(|t: StrMap<i64>| t.entry_seq()),
            m@.drops == Set::<Seq<char>>::empty(),
            match fixture_list(lighting@.map_values(|v: Value| v@)) {
                Some(items) => match fixture_levels(items) {
                    Ok(levels) => m@.levels == levels,
                    Err(_) => m@.levels == Map::<Seq<char>, i64>::empty(),
                },
                None => m@.levels == Map::<Seq<char>, i64>::empty(),
            },
    {
        match Self::try_from_config(lighting, scenes) {
            Ok(m) => m,
            Err(_) => {
                let scene_targets = clone_nested(scenes);
                proof {
                    use_type_invariant(scenes);
                    use_type_invariant(&scene_targets);
                    scenes.lemma_wf();
                    scene_targets.lemma_wf();
                    assert forall|k: Seq<char>| #[trigger] scene_targets@.contains_key(k) implies scene_targets@[k].entry_seq()
                        == scenes@[k].entry_seq() by {
                        let j = choose|j: int|
                            0 <= j < scene_targets.entry_seq().len() && scene_targets.entry_seq()[j].0 == k;
                        assert(nested_entries(&scene_targets)[j] == nested_entries(scenes)[j]);
                    }
                    assert(scene_targets@.map_values(|t: StrMap<i64>| t.entry_seq()) =~= scenes@.map_values(|t: StrMap<i64>| t.entry_seq()));
                }
                let m = LightingModel {
                    levels: StrMap::new(),
                    scene_targets,
                    command_drops: StrMap::new(),
                };
                assert(m@.drops =~= Set::<Seq<char>>::empty());
                m
            },
        }
    }

    pub fn assert_fixture_exists(&self, fixture: &str) -> (r: Result<(), DeviceModelError>)
        ensures
            match r {
                Ok(()) => self@.levels.contains_key(fixture@),
                Err(DeviceModelError::UnknownFixture(f)) => !self@.levels.contains_key(fixture@)
                    && f@ == fixture@,
                Err(_) => false,
            },
    {
        if self.levels.contains_key(fixture) {
            Ok(())
        } else {
            Err(DeviceModelError::UnknownFixture(to_owned(fixture)))
        }
    }

    pub fn assert_scene_exists(&self, scene: &str) -> (r: Result<(), DeviceModelError>)
        ensures
            match r {
                Ok(()) => self@.scenes.contains_key(scene@),
                Err(DeviceModelError::UnknownScene(s)) => !self@.scenes.contains_key(scene@) && s@
                    == scene@,
                Err(_) => false,
            },
    {
        if self.scene_targets.contains_key(scene) {
            Ok(())
        } else {
            Err(DeviceModelError::UnknownScene(to_owned(scene)))
        }
    }

    /// Checks that every scene target names a known fixture; reports the
    /// first unknown one in scene-name then fixture-name order.
    pub fn assert_scene_targets_exist(&self) -> (r: Result<(), DeviceModelError>)
        ensures
            match r {
                Ok(()) => first_missing_target(self.scene_entries(), self@.levels) is None,
                Err(DeviceModelError::UnknownFixture(f)) => first_missing_target(
                    self.scene_entries(),
                    self@.levels,
                ) == Some(f@),
                Err(_) => false,
            },
    {
        let n = self.scene_targets.len();
        let mut i: usize = 0;
        while i < n
            invariant
                i <= n,
                n == self.scene_targets.entry_seq().len(),
                first_missing_target(self.scene_entries().take(i as int), self@.levels) is None,
            decreases n - i,
        {
            let targets = self.scene_targets.value_at(i);
            let m = targets.len();
            let mut j: usize = 0;
            while j < m
                invariant
                    i < n,
                    n == self.scene_targets.entry_seq().len(),
                    j <= m,
                    m == targets.entry_seq().len(),
                    *targets == self.scene_targets.entry_seq()[i as int].1,
                    first_missing_target(self.scene_entries().take(i as int), self@.levels) is None,
                    first_missing_in(targets.entry_seq().take(j as int), self@.levels) is None,
                decreases m - j,
            {
                let fixture = targets.key_at(j);
                let ghost t = targets.entry_seq().take(j + 1);
                assert(t.drop_last() =~= targets.entry_seq().take(j as int));
                if !self.levels.contains_key(fixture.as_str()) {
                    let ghost scenes = self.scene_entries().take(i + 1);
                    proof {
                        assert(scenes.drop_last() =~= self.scene_entries().take(i as int));
                        assert(scenes.last() == targets.entry_seq());
                        lemma_first_missing_in_prefix(targets.entry_seq(), self@.levels, j as int);
                        lemma_first_missing_target_prefix(self.scene_entries(), self@.levels, i as int);
                    }
                    return Err(DeviceModelError::UnknownFixture(fixture.clone()));
                }
                j = j + 1;
            }
            proof {
                let scenes = self.scene_entries().take(i + 1);
                assert(scenes.drop_last() =~= self.scene_entries().take(i as int));
                assert(targets.entry_seq().take(m as int) =~= targets.entry_seq());
            }
            i = i + 1;
        }
        assert(self.scene_entries().take(n as int) =~= self.scene_entries());
        Ok(())
    }

    /// Makes future commands to `fixture` drop.
    pub fn drop_command_for_fixture(&mut self, fixture: &str) -> (r: Result<(), DeviceModelError>)
        ensures
            match r {
                Ok(()) => old(self)@.levels.contains_key(fixture@) && final(self)@.levels == old(self)@.levels && final(self)@.scenes == old(self)@.scenes && final(self)@.drops
                    == old(self)@.drops.insert(fixture@),
                Err(DeviceModelError::UnknownFixture(f)) => !old(self)@.levels.contains_key(
                    fixture@,
                ) && f@ == fixture@ && final(self)@ == old(self)@,
                Err(_) => false,
            },
    {
        self.assert_fixture_exists(fixture)?;
        self.command_drops.insert(to_owned(fixture), ());
        assert(self@.drops =~= old(self)@.drops.insert(fixture@));
        Ok(())
    }

    /// Activates a scene: every target fixture whose commands are not dropped
    /// takes the target level. Returns one event per target, in target order.
    pub fn activate_scene(&mut self, scene: &str) -> (r: Result<Vec<LightingEvent>, DeviceModelError>)
        ensures
            match r {
                Ok(events) => old(self)@.scenes.contains_key(scene@) && events@.map_values(
                    |e: LightingEvent| e@,
                ) == scene_events(old(self)@.scenes[scene@], old(self)@.drops) && final(self)@.levels == levels_after_scene(
                    old(self)@.levels,
                    old(self)@.scenes[scene@],
                    old(self)@.drops,
                ) && final(self)@.scenes == old(self)@.scenes && final(self)@.drops == old(self)@.drops,
                Err(DeviceModelError::UnknownScene(s)) => !old(self)@.scenes.contains_key(scene@)
                    && s@ == scene@ && final(self)@ == old(self)@,
                Err(_) => false,
            },
    {
        let index = match self.scene_targets.position(scene) {
            Some(i) => i,
            None => {
                return Err(DeviceModelError::UnknownScene(to_owned(scene)));
            },
        };
        proof {
            use_type_invariant(&self.scene_targets);
            self.scene_targets.lemma_wf();
        }
        let targets = self.scene_targets.value_at(index).clone_map();
        let ghost ts = targets.entry_seq();
        assert(ts == old(self)@.scenes[scene@]);
        let mut events: Vec<LightingEvent> = Vec::new();
        let n = targets.len();
        let mut i: usize = 0;
        while i < n
            invariant
                i <= n,
                n == ts.len(),
                ts == targets.entry_seq(),
                self@.scenes == old(self)@.scenes,
                self@.drops == old(self)@.drops,
                self@.levels == levels_after_scene(old(self)@.levels, ts.take(i as int), old(self)@.drops),
                events@.map_values(|e: LightingEvent| e@) == scene_events(ts.take(i as int), old(self)@.drops),
            decreases n - i,
        {
            let fixture = targets.key_at(i);
            let level = *targets.value_at(i);
            let ghost prefix = ts.take(i + 1);
            let ghost before = events@.map_values(|e: LightingEvent| e@);
            assert(prefix.drop_last() =~= ts.take(i as int));
            assert(prefix.last() == ts[i as int]);
            assert(scene_events(prefix, old(self)@.drops) =~= scene_events(ts.take(i as int), old(self)@.drops).push(
                if old(self)@.drops.contains(ts[i as int].0) {
                    LightingEventView::CommandDropped { fixture: ts[i as int].0 }
                } else {
                    LightingEventView::LevelChanged { fixture: ts[i as int].0, level: ts[i as int].1 }
                }));
            if self.command_drops.contains_key(fixture.as_str()) {
                events.push(LightingEvent::CommandDropped { fixture: fixture.clone() });
            } else {
                self.levels.insert(fixture.clone(), level);
                events.push(LightingEvent::LevelChanged { fixture: fixture.clone(), level });
            }
            assert(events@.map_values(|e: LightingEvent| e@) =~= before.push(events@.last()@));
            i = i + 1;
        }
        assert(ts.take(n as int) =~= ts);
        Ok(events)
    }

    /// Messages for the fixtures of `scene` whose level differs from its target.
    pub fn scene_consistency_failures(&self, scene: &str) -> (r: Result<Vec<String>, DeviceModelError>)
        ensures
            match r {
                Ok(messages) => self@.scenes.contains_key(scene@) && messages@.map_values(
                    |m: String| m@,
                ) == consistency_failures(self@.levels, self@.scenes[scene@]),
                Err(DeviceModelError::UnknownScene(s)) => !self@.scenes.contains_key(scene@) && s@
                    == scene@,
                Err(_) => false,
            },
    {
        let targets = match self.scene_targets.get(scene) {
            Some(t) => t,
            None => {
                return Err(DeviceModelError::UnknownScene(to_owned(scene)));
            },
        };
        let ghost ts = targets.entry_seq();
        let mut failures: Vec<String> = Vec::new();
        let n = targets.len();
        let mut i: usize = 0;
        while i < n
            invariant
                i <= n,
                n == ts.len(),
                ts == targets.entry_seq(),
                failures@.map_values(|m: String| m@) == consistency_failures(self@.levels, ts.take(i as int)),
            decreases n - i,
        {
            let fixture = targets.key_at(i);
            let expected = *targets.value_at(i);
            let actual = match self.levels.get_copied(fixture.as_str()) {
                Some(level) => level,
                None => 0,
            };
            let ghost prefix = ts.take(i + 1);
            assert(prefix.drop_last() =~= ts.take(i as int));
            if actual != expected {
                let mut message = fixture.clone();
                push_str(&mut message, " expected level ");
                let e = i64_to_string(expected);
                push_str(&mut message, e.as_str());
                push_str(&mut message, ", actual ");
                let a = i64_to_string(actual);
                push_str(&mut message, a.as_str());
                failures.push(message);
            }
            assert(failures@.map_values(|m: String| m@) =~= consistency_failures(self@.levels, prefix));
            i = i + 1;
        }
        assert(ts.take(n as int) =~= ts);
        Ok(failures)
    }
}

proof fn lemma_prefix_error(items: Seq<ValueView>, i: int)
    requires
        0 <= i < items.len(),
        fixture_levels(items.take(i + 1)) is Err,
    ensures
        fixture_levels(items) == fixture_levels(items.take(i + 1)),
    decreases items.len(),
{
    if items.len() > i + 1 {
        assert(items.drop_last().take(i + 1) =~= items.take(i + 1));
        lemma_prefix_error(items.drop_last(), i);
    } else {
        assert(items.take(i + 1) =~= items);
    }
}

proof fn lemma_first_missing_in_prefix(targets: Seq<(Seq<char>, i64)>, levels: Map<Seq<char>, i64>, j: int)
    requires
        0 <= j < targets.len(),
        first_missing_in(targets.take(j + 1), levels) is Some,
    ensures
        first_missing_in(targets, levels) == first_missing_in(targets.take(j + 1), levels),
    decreases targets.len(),
{
    if targets.len() > j + 1 {
        assert(targets.drop_last().take(j + 1) =~= targets.take(j + 1));
        lemma_first_missing_in_prefix(targets.drop_last(), levels, j);
    } else {
        assert(targets.take(j + 1) =~= targets);
    }
}

proof fn lemma_first_missing_target_prefix(
    scenes: Seq<Seq<(Seq<char>, i64)>>,
    levels: Map<Seq<char>, i64>,
    i: int,
)
    requires
        0 <= i < scenes.len(),
        first_missing_target(scenes.take(i + 1), levels) is Some,
    ensures
        first_missing_target(scenes, levels) == first_missing_target(scenes.take(i + 1), levels),
    decreases scenes.len(),
{
    if scenes.len() > i + 1 {
        assert(scenes.drop_last().take(i + 1) =~= scenes.take(i + 1));
        lemma_first_missing_target_prefix(scenes.drop_last(), levels, i);
    } else {
        assert(scenes.take(i + 1) =~= scenes);
    }
}

// ---------------------------------------------------------------------------
// Contacts
// ---------------------------------------------------------------------------

/// Contact-input model: declared contacts and their state.
#[derive(Debug)]
pub struct ContactModel {
    states: StrMap<String>,
}

impl View for ContactModel {
    type V = Map<Seq<char>, Seq<char>>;

    closed spec fn view(&self) -> Map<Seq<char>, Seq<char>> {
        self.states@.map_values(|s: String| s@)
    }
}

/// Contact states that an `inputs:` list declares, or the message of its
/// first malformed entry.
pub open spec fn contact_states(items: Seq<ValueView>) -> Result<Map<Seq<char>, Seq<char>>, Seq<char>>
    decreases items.len(),
{
    if items.len() == 0 {
        Ok(Map::empty())
    } else {
        match contact_states(items.drop_last()) {
            Err(e) => Err(e),
            Ok(states) => {
                let f = items.last();
                if !(f is Mapping) {
                    Err("inputs[] entries must be YAML maps"@)
                } else {
                    match view_get(f, "id"@) {
                        Some(id_value) => match view_str(id_value) {
                            Some(id) => {
                                let state = match view_get(f, "state"@) {
                                    Some(s) => match view_str(s) {
                                        Some(t) => t,
                                        None => "off"@,
                                    },
                                    None => "off"@,
                                };
                                Ok(states.insert(id, state))
                            },
                            None => Err("inputs[].id must be a string"@),
                        },
                        None => Err("inputs[].id must be a string"@),
                    }
                }
            },
        }
    }
}

pub open spec fn input_list(config: Map<Seq<char>, ValueView>) -> Option<Seq<ValueView>> {
    if config.contains_key("inputs"@) {
        match config["inputs"@] {
            ValueView::List(items) => Some(items),
            _ => None,
        }
    } else {
        None
    }
}

proof fn lemma_contact_prefix_error(items: Seq<ValueView>, i: int)
    requires
        0 <= i < items.len(),
        contact_states(items.take(i + 1)) is Err,
    ensures
        contact_states(items) == contact_states(items.take(i + 1)),
    decreases items.len(),
{
    if items.len() > i + 1 {
        assert(items.drop_last().take(i + 1) =~= items.take(i + 1));
        lemma_contact_prefix_error(items.drop_last(), i);
    } else {
        assert(items.take(i + 1) =~= items);
    }
}

impl ContactModel {
    /// A model without contacts.
    pub fn new() -> (m: Self)
        ensures
            m@ == Map::<Seq<char>, Seq<char>>::empty(),
    {
        let m = ContactModel { states: StrMap::new() };
        assert(m@ =~= Map::<Seq<char>, Seq<char>>::empty());
        m
    }

    /// Builds the model from a `contacts:` config.
    pub fn try_from_config(contacts: &StrMap<Value>) -> (r: Result<Self, DeviceModelError>)
        ensures
            match r {
                Ok(m) => match input_list(contacts@.map_values(|v: Value| v@)) {
                    Some(items) => contact_states(items) == Ok::<Map<Seq<char>, Seq<char>>, Seq<char>>(m@),
                    None => m@ == Map::<Seq<char>, Seq<char>>::empty(),
                },
                Err(DeviceModelError::InvalidContactConfig(msg)) => match input_list(
                    contacts@.map_values(|v: Value| v@),
                ) {
                    Some(items) => contact_states(items) == Err::<Map<Seq<char>, Seq<char>>, Seq<char>>(msg@),
                    None => false,
                },
                Err(_) => false,
            },
    {
        let inputs = match contacts.get("inputs") {
            Some(v) => match v.as_list() {
                Some(items) => items,
                None => {
                    return Ok(Self::new());
                },
            },
            None => {
                return Ok(Self::new());
            },
        };
        let ghost items = view_list(inputs@);
        proof {
            lemma_view_list(inputs@);
            assert(input_list(contacts@.map_values(|v: Value| v@)) == Some(items));
        }
        let mut m = Self::new();
        let mut i: usize = 0;
        while i < inputs.len()
            invariant
                i <= inputs.len(),
                items == view_list(inputs@),
                input_list(contacts@.map_values(|v: Value| v@)) == Some(items),
                items.len() == inputs.len(),
                forall|j: int| 0 <= j < items.len() ==> #[trigger] items[j] == inputs@[j]@,
                contact_states(items.take(i as int)) == Ok::<Map<Seq<char>, Seq<char>>, Seq<char>>(m@),
            decreases inputs.len() - i,
        {
            let ghost prefix = items.take(i + 1);
            assert(prefix.drop_last() =~= items.take(i as int));
            assert(prefix.last() == inputs@[i as int]@);
            let entries = match inputs[i].as_mapping() {
                Some(entries) => entries,
                None => {
                    proof {
                        lemma_contact_prefix_error(items, i as int);
                    }
                    return Err(
                        DeviceModelError::InvalidContactConfig(
                            to_owned("inputs[] entries must be YAML maps"),
                        ),
                    );
                },
            };
            let id = match mapping_get(entries, "id") {
                Some(v) => match v.as_str() {
                    Some(s) => s,
                    None => {
                        proof {
                            lemma_contact_prefix_error(items, i as int);
                        }
                        return Err(
                            DeviceModelError::InvalidContactConfig(
                                to_owned("inputs[].id must be a string"),
                            ),
                        );
                    },
                },
                None => {
                    proof {
                        lemma_contact_prefix_error(items, i as int);
                    }
                    return Err(
                        DeviceModelError::InvalidContactConfig(
                            to_owned("inputs[].id must be a string"),
                        ),
                    );
                },
            };
            let state = match mapping_get(entries, "state") {
                Some(v) => match v.as_str() {
                    Some(s) => s.clone(),
                    None => to_owned("off"),
                },
                None => to_owned("off"),
            };
            let ghost sv = state@;
            m.states.insert(id.clone(), state);
            assert(m@ =~= contact_states(items.take(i as int))->Ok_0.insert(id@, sv));
            i = i + 1;
        }
        assert(items.take(inputs.len() as int) =~= items);
        Ok(m)
    }

    /// Builds the model from config, with no contacts when it is malformed.
    pub fn from_config(contacts: &StrMap<Value>) -> (m: Self)
        ensures
            match input_list(contacts@.map_values(|v: Value| v@)) {
                Some(items) => match contact_states(items) {
                    Ok(states) => m@ == states,
                    Err(_) => m@ == Map::<Seq<char>, Seq<char>>::empty(),
                },
                None => m@ == Map::<Seq<char>, Seq<char>>::empty(),
            },
    {
        match Self::try_from_config(contacts) {
            Ok(m) => m,
            Err(_) => Self::new(),
        }
    }

    /// Sets the state of a declared contact.
    pub fn set_state(&mut self, id: &str, state: &str) -> (r: Result<(), DeviceModelError>)
        ensures
            match r {
                Ok(()) => old(self)@.contains_key(id@) && final(self)@ == old(self)@.insert(
                    id@,
                    state@,
                ),
                Err(DeviceModelError::UnknownContact(c)) => !old(self)@.contains_key(id@) && c@
                    == id@ && final(self)@ == old(self)@,
                Err(_) => false,
            },
    {
        if !self.states.contains_key(id) {
            return Err(DeviceModelError::UnknownContact(to_owned(id)));
        }
        self.states.insert(to_owned(id), to_owned(state));
        assert(self@ =~= old(self)@.insert(id@, state@));
        Ok(())
    }

    pub fn has_contact(&self, id: &str) -> (b: bool)
        ensures
            b == self@.contains_key(id@),
    {
        self.states.contains_key(id)
    }

    /// The state of a contact, if declared.
    pub fn state(&self, id: &str) -> (r: Option<&String>)
        ensures
            match r {
                Some(s) => self@.contains_key(id@) && s@ == self@[id@],
                None => !self@.contains_key(id@),
            },
    {
        self.states.get(id)
    }
}

impl Default for LightingModel {
    /// An empty model: no fixtures, scenes or dropped commands.
    fn default() -> (m: Self)
        ensures
            m@.levels == Map::<Seq<char>, i64>::empty(),
            m@.scenes == Map::<Seq<char>, Seq<(Seq<char>, i64)>>::empty(),
            m@.drops == Set::<Seq<char>>::empty(),
    {
        LightingModel::new()
    }
}

impl Default for ContactModel {
    /// A model without contacts.
    fn default() -> (m: Self)
        ensures
            m@ == Map::<Seq<char>, Seq<char>>::empty(),
    {
        ContactModel::new()
    }
}

/// The level a fixture is at, 0 when it has none.
pub open spec fn fixture_level(levels: Map<Seq<char>, i64>, fixture: Seq<char>) -> i64 {
    if levels.contains_key(fixture) {
        levels[fixture]
    } else {
        0
    }
}

/// Scene consistency reports every target whose fixture is not at its
/// target level, above or below it, with the expected and actual levels;
/// it reports nothing exactly when every target fixture is at its level.
pub proof fn law_scene_consistency_reports_every_mismatch(
    levels: Map<Seq<char>, i64>,
    targets: Seq<(Seq<char>, i64)>,
)
    ensures
        forall|i: int|
            0 <= i < targets.len() && fixture_level(levels, #[trigger] targets[i].0) != targets[i].1
                ==> consistency_failures(levels, targets).contains(
                targets[i].0 + " expected level "@ + signed_decimal(targets[i].1 as int) + ", actual "@
                    + signed_decimal(fixture_level(levels, targets[i].0) as int),
            ),
        consistency_failures(levels, targets).len() == 0 <==> forall|i: int|
            0 <= i < targets.len() ==> fixture_level(levels, #[trigger] targets[i].0) == targets[i].1,
        consistency_failures(levels, targets).len() <= targets.len(),
    decreases targets.len(),
{
    if targets.len() > 0 {
        let init = targets.drop_last();
        law_scene_consistency_reports_every_mismatch(levels, init);
        let fs = consistency_failures(levels, targets);
        let pf = consistency_failures(levels, init);
        let n = targets.len() - 1;
        assert forall|i: int|
            0 <= i < targets.len() && fixture_level(levels, #[trigger] targets[i].0) != targets[i].1 implies fs.contains(
            targets[i].0 + " expected level "@ + signed_decimal(targets[i].1 as int) + ", actual "@
                + signed_decimal(fixture_level(levels, targets[i].0) as int),
        ) by {
            let msg = targets[i].0 + " expected level "@ + signed_decimal(targets[i].1 as int) + ", actual "@
                + signed_decimal(fixture_level(levels, targets[i].0) as int);
            if i < n {
                assert(init[i] == targets[i]);
                assert(fixture_level(levels, init[i].0) != init[i].1);
                assert(pf.contains(msg));
                let j = choose|j: int| 0 <= j < pf.len() && pf[j] == msg;
                assert(fs[j] == pf[j]);
            } else {
                assert(fs[fs.len() - 1] == msg);
            }
        }
        if fs.len() == 0 {
            assert forall|i: int| 0 <= i < targets.len() implies fixture_level(levels, #[trigger] targets[i].0)
                == targets[i].1 by {
                if i < n {
                    assert(init[i] == targets[i]);
                    assert(fixture_level(levels, init[i].0) == init[i].1);
                }
            }
        }
        if forall|i: int| 0 <= i < targets.len() ==> fixture_level(levels, #[trigger] targets[i].0) == targets[i].1 {
            assert forall|i: int| 0 <= i < init.len() implies fixture_level(levels, #[trigger] init[i].0)
                == init[i].1 by {
                assert(init[i] == targets[i]);
            }
            assert(fixture_level(levels, targets[n].0) == targets[n].1);
        }
    }
}

} // verus!
