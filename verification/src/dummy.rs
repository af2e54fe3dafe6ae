//! A simulated gateway with canned homes, for running without hardware.
use vstd::prelude::*;
use vstd::string::StringExecFns;
use crate::gateway::{GatewayError, GatewayHealth};
use crate::keyed::{keys_unique, pair_key, table_find, table_get, table_insert, table_insert_exec, lemma_lookup_at, lemma_table_get_insert};
use crate::light_group::contains_id;
use crate::state::{Capability, DeviceId, DeviceInfo, DeviceInfoView, DeviceStateValue, DeviceType, LightState, MotionSensorState, OutletState, RgbColor, SensorState, SwitchState, Timestamp};
use crate::store::string_views;
use crate::text::{decimal, push_decimal};

verus! {

/// A simulated device.
#[derive(Debug)]
pub struct MockDevice {
    pub info: DeviceInfo,
    pub state: DeviceStateValue,
    pub last_updated: Timestamp,
}

/// The information a simulated device reports: its id, name, kind and capabilities, in the
/// "Living Room" group, made by "VIBEC0RE" as a "Mock-1000" on firmware "1.0.0", battery powered
/// when it is a switch or motion sensor, reachable, seen at `now`.
pub open spec fn mock_info(id: Seq<char>, name: Seq<char>, t: DeviceType, caps: Seq<Capability>, state: DeviceStateValue,
    now: Timestamp, info: DeviceInfoView) -> bool {
    &&& info.device_id@ == id
    &&& info.name@ == name
    &&& info.device_type == t
    &&& info.capabilities == caps
    &&& string_views(info.device_groups) == seq!["Living Room"@]
    &&& info.manufacturer matches Some(m) && m@ == "VIBEC0RE"@
    &&& info.model matches Some(m) && m@ == "Mock-1000"@
    &&& info.firmware_version matches Some(f) && f@ == "1.0.0"@
    &&& info.battery_powered == (state is Switch || state is MotionSensor)
    &&& info.reachable
    &&& info.last_seen == now
    &&& info.custom_attributes.len() == 0
}

/// The simulated gateway's devices, failures and scenario.
pub struct DummyGateway {
    devices: Vec<(DeviceId, MockDevice)>,
    unreachable_devices: Vec<DeviceId>,
    scenario_name: String,
}

/// The ids of the basic home, in the order they are added.
pub open spec fn basic_home_ids() -> Seq<Seq<char>> {
    seq!["light_living_room"@, "light_kitchen"@, "light_bedroom"@, "switch_hallway"@, "motion_hallway"@, "motion_kitchen"@,
        "temperature_living_room"@, "outlet_tv"@]
}

/// The basic home's ids are pairwise different.
proof fn lemma_basic_home_ids_distinct()
    ensures
        forall|i: int, j: int| 0 <= i < j < basic_home_ids().len() ==> basic_home_ids()[i] != basic_home_ids()[j],
{
    reveal_strlit("light_living_room");
    reveal_strlit("light_kitchen");
    reveal_strlit("light_bedroom");
    reveal_strlit("switch_hallway");
    reveal_strlit("motion_hallway");
    reveal_strlit("motion_kitchen");
    reveal_strlit("temperature_living_room");
    reveal_strlit("outlet_tv");
    let ids = basic_home_ids();
    assert(ids[0][6] != ids[1][6]);
    assert(ids[0][6] != ids[2][6]);
    assert(ids[0][0] != ids[3][0]);
    assert(ids[0][0] != ids[4][0]);
    assert(ids[0][0] != ids[5][0]);
    assert(ids[0][0] != ids[6][0]);
    assert(ids[0][0] != ids[7][0]);
    assert(ids[1][6] != ids[2][6]);
    assert(ids[1][0] != ids[3][0]);
    assert(ids[1][0] != ids[4][0]);
    assert(ids[1][0] != ids[5][0]);
    assert(ids[1][0] != ids[6][0]);
    assert(ids[1][0] != ids[7][0]);
    assert(ids[2][0] != ids[3][0]);
    assert(ids[2][0] != ids[4][0]);
    assert(ids[2][0] != ids[5][0]);
    assert(ids[2][0] != ids[6][0]);
    assert(ids[2][0] != ids[7][0]);
    assert(ids[3][0] != ids[4][0]);
    assert(ids[3][0] != ids[5][0]);
    assert(ids[3][0] != ids[6][0]);
    assert(ids[3][0] != ids[7][0]);
    assert(ids[4][7] != ids[5][7]);
    assert(ids[4][0] != ids[6][0]);
    assert(ids[4][0] != ids[7][0]);
    assert(ids[5][0] != ids[6][0]);
    assert(ids[5][0] != ids[7][0]);
    assert(ids[6][0] != ids[7][0]);
}

/// What a simulated device is made of: id, name, kind, capabilities and starting state.
pub type MockSpec = (Seq<char>, Seq<char>, DeviceType, Seq<Capability>, DeviceStateValue);

/// The devices of the basic home at time `now`, in the order they are added: three lights, a
/// switch, two motion sensors, a climate sensor and an outlet, with their starting states.
pub open spec fn basic_home(now: Timestamp) -> Seq<MockSpec> {
    seq![
        ("light_living_room"@, "Living Room Light"@, DeviceType::Light,
            seq![Capability::OnOff, Capability::Brightness, Capability::ColorTemperature],
            DeviceStateValue::Light(LightState { is_on: false, brightness: Some(0), color_temp: Some(2700), rgb_color: None })),
        ("light_kitchen"@, "Kitchen Light"@, DeviceType::Light, seq![Capability::OnOff, Capability::Brightness],
            DeviceStateValue::Light(LightState { is_on: true, brightness: Some(75), color_temp: None, rgb_color: None })),
        ("light_bedroom"@, "Bedroom RGB Light"@, DeviceType::Light,
            seq![Capability::OnOff, Capability::Brightness, Capability::RgbColor],
            DeviceStateValue::Light(LightState { is_on: false, brightness: Some(0), color_temp: None,
                rgb_color: Some(RgbColor { r: 255, g: 100, b: 50 }) })),
        ("switch_hallway"@, "Hallway Switch"@, DeviceType::Switch, seq![Capability::OnOff, Capability::BatteryLevel],
            DeviceStateValue::Switch(SwitchState { is_pressed: false, last_pressed: None, battery_level: Some(85) })),
        ("motion_hallway"@, "Hallway Motion"@, DeviceType::MotionSensor, seq![Capability::MotionDetection, Capability::BatteryLevel],
            DeviceStateValue::MotionSensor(MotionSensorState { motion_detected: false, last_motion: None, battery_level: Some(75) })),
        ("motion_kitchen"@, "Kitchen Motion"@, DeviceType::MotionSensor, seq![Capability::MotionDetection, Capability::BatteryLevel],
            DeviceStateValue::MotionSensor(MotionSensorState { motion_detected: false, last_motion: None, battery_level: Some(90) })),
        ("temperature_living_room"@, "Living Room Sensor"@, DeviceType::Sensor, seq![Capability::Temperature, Capability::Humidity],
            DeviceStateValue::Sensor(SensorState { temperature_bits: Some(0x41b40000), humidity_bits: Some(0x4234cccd),
                last_updated: now })),
        ("outlet_tv"@, "TV Outlet"@, DeviceType::Outlet, seq![Capability::OnOff],
            DeviceStateValue::Outlet(OutletState { is_on: true, power_consumption_bits: Some(0x42360000),
                total_energy_bits: Some(0x42f6cccd) })),
    ]
}

/// The `k`-th room light the large home adds: every third on, at five times its number percent,
/// modulo 100.
pub open spec fn room_light(k: nat) -> MockSpec {
    ("light_room_"@ + decimal(k), "Room "@ + decimal(k) + " Light"@, DeviceType::Light,
        seq![Capability::OnOff, Capability::Brightness],
        DeviceStateValue::Light(LightState { is_on: k % 3 == 0, brightness: Some(((k * 5) % 100) as u8), color_temp: None,
            rgb_color: None }))
}

/// The `k`-th zone sensor the large home adds, made at time `now`: 20 °C plus half its number,
/// as the bits of a 32-bit float.
pub open spec fn zone_sensor(k: nat, now: Timestamp) -> MockSpec {
    ("sensor_zone_"@ + decimal(k), "Zone "@ + decimal(k) + " Sensor"@, DeviceType::Sensor, seq![Capability::Temperature],
        DeviceStateValue::Sensor(SensorState { temperature_bits: Some((0x41a00000 + k * 0x40000) as u32), humidity_bits: None,
            last_updated: now }))
}

/// The devices of the large home at time `now`, in the order they are added: the basic home,
/// room lights 1 to 20, zone sensors 1 to 10.
pub open spec fn large_home(now: Timestamp) -> Seq<MockSpec> {
    basic_home(now) + Seq::new(20, |i: int| room_light((i + 1) as nat)) + Seq::new(10, |i: int| zone_sensor((i + 1) as nat, now))
}

/// The ids of a list of simulated devices.
pub open spec fn spec_ids(specs: Seq<MockSpec>) -> Seq<Seq<char>> {
    specs.map_values(|m: MockSpec| m.0)
}

/// A prefix followed by two texts is the same only for the same texts.
proof fn lemma_prefixed_eq(p: Seq<char>, a: Seq<char>, b: Seq<char>)
    requires
        p + a == p + b,
    ensures
        a == b,
{
    assert((p + a).subrange(p.len() as int, (p + a).len() as int) =~= a);
    assert((p + b).subrange(p.len() as int, (p + b).len() as int) =~= b);
}

/// The large home's ids are pairwise different.
proof fn lemma_large_home_ids_distinct(now: Timestamp)
    ensures
        forall|x: int, y: int| 0 <= x < y < large_home(now).len() ==> large_home(now)[x].0 != large_home(now)[y].0,
{
    reveal_strlit("light_living_room");
    reveal_strlit("light_kitchen");
    reveal_strlit("light_bedroom");
    reveal_strlit("switch_hallway");
    reveal_strlit("motion_hallway");
    reveal_strlit("motion_kitchen");
    reveal_strlit("temperature_living_room");
    reveal_strlit("outlet_tv");
    reveal_strlit("light_room_");
    reveal_strlit("sensor_zone_");
    lemma_basic_home_ids_distinct();
    let h = large_home(now);
    let b = basic_home(now);
    assert(forall|k: int| 0 <= k < 8 ==> #[trigger] b[k].0 == basic_home_ids()[k]);
    assert forall|k: int| 0 <= k < 8 implies (#[trigger] b[k].0)[0] != 'l' || b[k].0[6] != 'r' by {
        if k == 0 {} else if k == 1 {} else if k == 2 {} else if k == 3 {} else if k == 4 {} else if k == 5 {}
        else if k == 6 {} else {}
    }
    assert forall|k: int| 0 <= k < 8 implies (#[trigger] b[k].0)[0] != 's' || b[k].0[1] != 'e' by {
        if k == 0 {} else if k == 1 {} else if k == 2 {} else if k == 3 {} else if k == 4 {} else if k == 5 {}
        else if k == 6 {} else {}
    }
    assert forall|x: int, y: int| 0 <= x < y < h.len() implies h[x].0 != h[y].0 by {
        if y >= 8 {
            let ky = if y < 28 { (y - 7) as nat } else { (y - 27) as nat };
            let py = if y < 28 { "light_room_"@ } else { "sensor_zone_"@ };
            assert(h[y].0 == py + decimal(ky));
            if x < 8 {
                assert(h[x] == b[x]);
                assert((py + decimal(ky))[0] == py[0] && (py + decimal(ky))[1] == py[1] && (py + decimal(ky))[6] == py[6]);
            } else {
                let kx = if x < 28 { (x - 7) as nat } else { (x - 27) as nat };
                let px = if x < 28 { "light_room_"@ } else { "sensor_zone_"@ };
                assert(h[x].0 == px + decimal(kx));
                if h[x].0 == h[y].0 {
                    if px == py {
                        lemma_prefixed_eq(px, decimal(kx), decimal(ky));
                        crate::text::lemma_decimal_injective(kx, ky);
                    } else {
                        assert((px + decimal(kx))[0] == px[0] && (py + decimal(ky))[0] == py[0]);
                    }
                }
            }
        }
    }
}

/// Simulated device `d` is the one `spec` describes, made at time `now`.
pub open spec fn made_as(d: MockDevice, spec: MockSpec, now: Timestamp) -> bool {
    &&& mock_info(spec.0, spec.1, spec.2, spec.3, spec.4, now, d.info@)
    &&& d.state == spec.4
    &&& d.last_updated == now
}

impl DummyGateway {
    /// The devices by id.
    pub closed spec fn devices(&self) -> Seq<(String, MockDevice)> {
        self.devices@
    }

    /// The ids of the devices, in order.
    pub open spec fn device_ids(&self) -> Seq<Seq<char>> {
        self.devices().map_values(|e: (String, MockDevice)| e.0@)
    }

    /// The device with id `id`, if any.
    pub open spec fn device(&self, id: Seq<char>) -> Option<MockDevice> {
        table_get(self.devices(), id)
    }

    /// The devices that always fail as unreachable.
    pub closed spec fn unreachable(&self) -> Seq<Seq<char>> {
        string_views(self.unreachable_devices@)
    }

    /// The scenario's name.
    pub closed spec fn scenario(&self) -> Seq<char> {
        self.scenario_name@
    }

    /// Every device appears once.
    pub closed spec fn wf(&self) -> bool {
        keys_unique(self.devices@, pair_key::<MockDevice>())
    }

    /// Files a simulated device under `id`, replacing one with the same id.
    fn add_mock_device(&mut self, id: &str, name: &str, device_type: DeviceType, capabilities: Vec<Capability>,
        initial_state: DeviceStateValue, now: Timestamp)
        requires
            old(self).wf(),
        ensures
            final(self).wf(),
            final(self).unreachable() == old(self).unreachable(),
            final(self).scenario() == old(self).scenario(),
            final(self).device(id@) matches Some(d) && mock_info(id@, name@, device_type, capabilities@, initial_state, now, d.info@)
                && d.state == initial_state && d.last_updated == now,
            forall|k: Seq<char>| k != id@ ==> #[trigger] final(self).device(k) == old(self).device(k),
            final(self).device_ids() == if old(self).device_ids().contains(id@) { old(self).device_ids() } else {
                old(self).device_ids().push(id@)
            },
    {
        let battery = match &initial_state {
            DeviceStateValue::Switch(_) | DeviceStateValue::MotionSensor(_) => true,
            _ => false,
        };
        let info = DeviceInfo {
            device_id: String::from_str(id),
            name: String::from_str(name),
            device_type,
            capabilities,
            device_groups: vec![String::from_str("Living Room")],
            manufacturer: Some(String::from_str("VIBEC0RE")),
            model: Some(String::from_str("Mock-1000")),
            firmware_version: Some(String::from_str("1.0.0")),
            battery_powered: battery,
            reachable: true,
            last_seen: now,
            custom_attributes: Vec::new(),
        };
        assert(string_views(info.device_groups@) =~= seq!["Living Room"@]);
        let d = MockDevice { info, state: initial_state, last_updated: now };
        let key = String::from_str(id);
        let ghost before = self.devices@;
        let ghost entry_d = d;
        proof {
            assert forall|k: Seq<char>| #[trigger] table_get(table_insert(before, key, d), k)
                == if k == key@ { Some(d) } else { table_get(before, k) } by {
                lemma_table_get_insert(before, key, d, k);
            }
        }
        table_insert_exec(&mut self.devices, key, d);
        proof {
            let ids = before.map_values(|e: (String, MockDevice)| e.0@);
            if crate::keyed::has_key(before, pair_key::<MockDevice>(), id@) {
                let i = crate::keyed::index_of_key(before, pair_key::<MockDevice>(), id@);
                assert(ids[i] == id@);
                assert(self.devices@.map_values(|e: (String, MockDevice)| e.0@) =~= ids);
            } else {
                assert(self.devices@.map_values(|e: (String, MockDevice)| e.0@) =~= ids.push(id@));
                assert forall|i: int| 0 <= i < ids.len() implies ids[i] != id@ by {
                    assert(before[i].0@ == ids[i]);
                }
            }
        }
    }

    /// Adds the basic home: three lights, a switch, two motion sensors, a climate sensor and an
    /// outlet, with their starting states, at time `now`.
    #[verifier::spinoff_prover]
    fn load_basic_home(&mut self, now: Timestamp)
        requires
            old(self).wf(),
            old(self).devices().len() == 0,
        ensures
            final(self).wf(),
            final(self).unreachable() == old(self).unreachable(),
            final(self).scenario() == old(self).scenario(),
            final(self).device_ids() == basic_home_ids(),
            forall|i: int| 0 <= i < basic_home_ids().len() ==> #[trigger] final(self).device(basic_home_ids()[i]) is Some,
            forall|i: int| 0 <= i < basic_home(now).len() ==> (#[trigger] final(self).device(basic_home(now)[i].0)
                matches Some(d) && made_as(d, basic_home(now)[i], now)),
    {
        proof {
            reveal_strlit("light_living_room");
            reveal_strlit("light_kitchen");
            reveal_strlit("light_bedroom");
            reveal_strlit("switch_hallway");
            reveal_strlit("motion_hallway");
            reveal_strlit("motion_kitchen");
            reveal_strlit("temperature_living_room");
            reveal_strlit("outlet_tv");
        }
        let ghost spec = basic_home(now);
        self.add_mock_device("light_living_room", "Living Room Light", DeviceType::Light,
            vec![Capability::OnOff, Capability::Brightness, Capability::ColorTemperature],
            DeviceStateValue::Light(LightState { is_on: false, brightness: Some(0), color_temp: Some(2700), rgb_color: None }), now);
        assert(self.device(spec[0].0) matches Some(d) && made_as(d, spec[0], now));
        assert(self.device_ids() =~= basic_home_ids().take(1)) by { lemma_basic_home_ids_distinct(); }
        self.add_mock_device("light_kitchen", "Kitchen Light", DeviceType::Light, vec![Capability::OnOff, Capability::Brightness],
            DeviceStateValue::Light(LightState { is_on: true, brightness: Some(75), color_temp: None, rgb_color: None }), now);
        assert(self.device(spec[1].0) matches Some(d) && made_as(d, spec[1], now));
        assert(self.device_ids() =~= basic_home_ids().take(2)) by { lemma_basic_home_ids_distinct(); }
        self.add_mock_device("light_bedroom", "Bedroom RGB Light", DeviceType::Light,
            vec![Capability::OnOff, Capability::Brightness, Capability::RgbColor],
            DeviceStateValue::Light(LightState { is_on: false, brightness: Some(0), color_temp: None,
                rgb_color: Some(RgbColor { r: 255, g: 100, b: 50 }) }), now);
        assert(self.device(spec[2].0) matches Some(d) && made_as(d, spec[2], now));
        assert(self.device_ids() =~= basic_home_ids().take(3)) by { lemma_basic_home_ids_distinct(); }
        self.add_mock_device("switch_hallway", "Hallway Switch", DeviceType::Switch, vec![Capability::OnOff, Capability::BatteryLevel],
            DeviceStateValue::Switch(SwitchState { is_pressed: false, last_pressed: None, battery_level: Some(85) }), now);
        assert(self.device(spec[3].0) matches Some(d) && made_as(d, spec[3], now));
        assert(self.device_ids() =~= basic_home_ids().take(4)) by { lemma_basic_home_ids_distinct(); }
        self.add_mock_device("motion_hallway", "Hallway Motion", DeviceType::MotionSensor,
            vec![Capability::MotionDetection, Capability::BatteryLevel],
            DeviceStateValue::MotionSensor(MotionSensorState { motion_detected: false, last_motion: None, battery_level: Some(75) }), now);
        assert(self.device(spec[4].0) matches Some(d) && made_as(d, spec[4], now));
        assert(self.device_ids() =~= basic_home_ids().take(5)) by { lemma_basic_home_ids_distinct(); }
        self.add_mock_device("motion_kitchen", "Kitchen Motion", DeviceType::MotionSensor,
            vec![Capability::MotionDetection, Capability::BatteryLevel],
            DeviceStateValue::MotionSensor(MotionSensorState { motion_detected: false, last_motion: None, battery_level: Some(90) }), now);
        assert(self.device(spec[5].0) matches Some(d) && made_as(d, spec[5], now));
        assert(self.device_ids() =~= basic_home_ids().take(6)) by { lemma_basic_home_ids_distinct(); }
        self.add_mock_device("temperature_living_room", "Living Room Sensor", DeviceType::Sensor,
            vec![Capability::Temperature, Capability::Humidity],
            DeviceStateValue::Sensor(SensorState { temperature_bits: Some(0x41b40000), humidity_bits: Some(0x4234cccd), last_updated: now }), now);
        assert(self.device(spec[6].0) matches Some(d) && made_as(d, spec[6], now));
        assert(self.device_ids() =~= basic_home_ids().take(7)) by { lemma_basic_home_ids_distinct(); }
        self.add_mock_device("outlet_tv", "TV Outlet", DeviceType::Outlet, vec![Capability::OnOff],
            DeviceStateValue::Outlet(OutletState { is_on: true, power_consumption_bits: Some(0x42360000), total_energy_bits: Some(0x42f6cccd) }), now);
        assert(self.device(spec[7].0)->0.state == spec[7].4);
        assert(self.device(spec[7].0)->0.info@.capabilities == spec[7].3);
        assert(self.device(spec[7].0) matches Some(d) && made_as(d, spec[7], now));
        assert(self.device_ids() =~= basic_home_ids().take(8)) by { lemma_basic_home_ids_distinct(); }
        assert forall|i: int| 0 <= i < spec.len() implies (#[trigger] self.device(spec[i].0) matches Some(d)
            && made_as(d, spec[i], now)) by {
            lemma_basic_home_ids_distinct();
            assert(forall|k: int| 0 <= k < 8 ==> #[trigger] spec[k].0 == basic_home_ids()[k]);
            if i == 0 {} else if i == 1 {} else if i == 2 {} else if i == 3 {} else if i == 4 {} else if i == 5 {}
            else if i == 6 {} else {}
        }
    }

    /// Adds the large home: the basic home, twenty more lights (`light_room_1` to `_20`, every
    /// third on, at five times their number percent, modulo 100) and ten zone sensors
    /// (`sensor_zone_1` to `_10`, at 20 °C plus half their number).
    fn load_large_home(&mut self, now: Timestamp)
        requires
            old(self).wf(),
            old(self).devices().len() == 0,
        ensures
            final(self).wf(),
            final(self).unreachable() == old(self).unreachable(),
            final(self).scenario() == old(self).scenario(),
            final(self).device_ids() == spec_ids(large_home(now)),
            forall|x: int| 0 <= x < large_home(now).len() ==> (#[trigger] final(self).device(large_home(now)[x].0)
                matches Some(d) && made_as(d, large_home(now)[x], now)),
    {
        let ghost h = large_home(now);
        self.load_basic_home(now);
        proof {
            lemma_large_home_ids_distinct(now);
            assert(self.device_ids() =~= spec_ids(h).take(8));
            assert forall|x: int| 0 <= x < 8 implies (#[trigger] self.device(h[x].0) matches Some(d) && made_as(d, h[x], now)) by {
                assert(h[x] == basic_home(now)[x]);
            }
        }
        let mut i: u32 = 1;
        while i <= 20
            invariant
                1 <= i <= 21,
                self.wf(),
                self.unreachable() == old(self).unreachable(),
                self.scenario() == old(self).scenario(),
                h == large_home(now),
                forall|x: int, y: int| 0 <= x < y < h.len() ==> h[x].0 != h[y].0,
                self.device_ids() == spec_ids(h).take(7 + i),
                forall|x: int| 0 <= x < 7 + i ==> (#[trigger] self.device(h[x].0) matches Some(d) && made_as(d, h[x], now)),
            decreases 21 - i,
        {
            let mut id = String::from_str("light_room_");
            push_decimal(&mut id, i as u64);
            let mut name = String::from_str("Room ");
            push_decimal(&mut name, i as u64);
            name.append(" Light");
            self.add_mock_device(id.as_str(), name.as_str(), DeviceType::Light, vec![Capability::OnOff, Capability::Brightness],
                DeviceStateValue::Light(LightState { is_on: i % 3 == 0, brightness: Some(((i * 5) % 100) as u8), color_temp: None,
                    rgb_color: None }), now);
            proof {
                let n = 7 + i;
                assert(h[n] == room_light(i as nat));
                assert(forall|x: int| 0 <= x < n ==> h[x].0 != #[trigger] h[n].0);
                assert(self.device_ids() =~= spec_ids(h).take(n + 1));
            }
            i = i + 1;
        }
        let mut j: u32 = 1;
        while j <= 10
            invariant
                1 <= j <= 11,
                self.wf(),
                self.unreachable() == old(self).unreachable(),
                self.scenario() == old(self).scenario(),
                h == large_home(now),
                forall|x: int, y: int| 0 <= x < y < h.len() ==> h[x].0 != h[y].0,
                self.device_ids() == spec_ids(h).take(27 + j),
                forall|x: int| 0 <= x < 27 + j ==> (#[trigger] self.device(h[x].0) matches Some(d) && made_as(d, h[x], now)),
            decreases 11 - j,
        {
            let mut id = String::from_str("sensor_zone_");
            push_decimal(&mut id, j as u64);
            let mut name = String::from_str("Zone ");
            push_decimal(&mut name, j as u64);
            name.append(" Sensor");
            self.add_mock_device(id.as_str(), name.as_str(), DeviceType::Sensor, vec![Capability::Temperature],
                DeviceStateValue::Sensor(SensorState { temperature_bits: Some(0x41a00000 + j * 0x40000), humidity_bits: None,
                    last_updated: now }), now);
            proof {
                let n = 27 + j;
                assert(h[n] == zone_sensor(j as nat, now));
                assert(self.device(h[n].0)->0.state == h[n].4);
                assert(self.device(h[n].0)->0.info@.capabilities == h[n].3);
                assert(forall|x: int| 0 <= x < n ==> h[x].0 != #[trigger] h[n].0);
                assert(self.device_ids() =~= spec_ids(h).take(n + 1));
            }
            j = j + 1;
        }
        assert(spec_ids(h).take(38) =~= spec_ids(h));
    }

    /// A simulated gateway for `scenario`, filled at time `now`: "large_home" gets the large home;
    /// "basic_home", "unreliable_network" and any other name the basic home. No device fails.
    pub fn new(scenario: &str, now: Timestamp) -> (res: DummyGateway)
        ensures
            res.wf(),
            res.scenario() == scenario@,
            res.unreachable().len() == 0,
            scenario@ == "large_home"@ ==> res.device_ids() == spec_ids(large_home(now))
                && forall|x: int| 0 <= x < large_home(now).len() ==> (#[trigger] res.device(large_home(now)[x].0)
                    matches Some(d) && made_as(d, large_home(now)[x], now)),
            scenario@ != "large_home"@ ==> res.device_ids() == spec_ids(basic_home(now))
                && forall|x: int| 0 <= x < basic_home(now).len() ==> (#[trigger] res.device(basic_home(now)[x].0)
                    matches Some(d) && made_as(d, basic_home(now)[x], now)),
            forall|i: int| 0 <= i < basic_home_ids().len() ==> #[trigger] res.device(basic_home_ids()[i]) is Some,
    {
        let mut g = DummyGateway { devices: Vec::new(), unreachable_devices: Vec::new(), scenario_name: String::from_str(scenario) };
        assert(string_views(g.unreachable_devices@) =~= Seq::<Seq<char>>::empty());
        proof {
            assert(spec_ids(basic_home(now)) =~= basic_home_ids());
            assert(forall|k: int| 0 <= k < 8 ==> #[trigger] large_home(now)[k] == basic_home(now)[k]);
        }
        if crate::text::str_eq(scenario, "large_home") {
            g.load_large_home(now);
            assert forall|i: int| 0 <= i < basic_home_ids().len() implies #[trigger] g.device(basic_home_ids()[i]) is Some by {
                assert(large_home(now)[i].0 == basic_home_ids()[i]);
            }
        } else {
            g.load_basic_home(now);
        }
        g
    }
}


impl DummyGateway {
    /// The information of every simulated device, in the order they were added.
    pub fn discover_devices(&self) -> (res: Result<Vec<DeviceInfo>, GatewayError>)
        ensures
            res matches Ok(v) && v@.len() == self.devices().len()
                && forall|i: int| 0 <= i < v@.len() ==> #[trigger] v@[i]@ == self.devices()[i].1.info@,
    {
        let mut out: Vec<DeviceInfo> = Vec::new();
        let mut i: usize = 0;
        while i < self.devices.len()
            invariant
                i <= self.devices@.len(),
                out@.len() == i,
                forall|k: int| 0 <= k < i ==> #[trigger] out@[k]@ == self.devices@[k].1.info@,
            decreases self.devices@.len() - i,
        {
            out.push(self.devices[i].1.info.clone_info());
            i = i + 1;
        }
        Ok(out)
    }

    /// The state of simulated device `device_id`; unreachable devices fail as such, unknown ones
    /// as not found.
    pub fn get_device_state(&self, device_id: &DeviceId) -> (res: Result<DeviceStateValue, GatewayError>)
        requires
            self.wf(),
        ensures
            self.unreachable().contains(device_id@) ==> (res matches Err(GatewayError::DeviceUnreachable(id)) && id@ == device_id@),
            !self.unreachable().contains(device_id@) ==> match self.device(device_id@) {
                Some(d) => res == Ok::<DeviceStateValue, GatewayError>(d.state),
                None => res matches Err(GatewayError::DeviceNotFound(id)) && id@ == device_id@,
            },
    {
        if contains_id(&self.unreachable_devices, device_id.as_str()) {
            return Err(GatewayError::DeviceUnreachable(device_id.clone()));
        }
        match table_find(&self.devices, device_id.as_str()) {
            Some(i) => {
                proof { lemma_lookup_at(self.devices@, pair_key::<MockDevice>(), device_id@, i as int); }
                Ok(self.devices[i].1.state.clone())
            },
            None => Err(GatewayError::DeviceNotFound(device_id.clone())),
        }
    }

    /// Gives simulated device `device_id` state `state` at time `now`; unreachable devices fail as
    /// such, unknown ones as not found.
    pub fn set_device_state(&mut self, device_id: &DeviceId, state: DeviceStateValue, now: Timestamp)
        -> (res: Result<(), GatewayError>)
        requires
            old(self).wf(),
        ensures
            final(self).wf(),
            final(self).unreachable() == old(self).unreachable(),
            final(self).device_ids() == old(self).device_ids(),
            forall|k: Seq<char>| k != device_id@ ==> #[trigger] final(self).device(k) == old(self).device(k),
            old(self).unreachable().contains(device_id@) ==> (res matches Err(GatewayError::DeviceUnreachable(id))
                && id@ == device_id@ && final(self).device(device_id@) == old(self).device(device_id@)),
            !old(self).unreachable().contains(device_id@) ==> match old(self).device(device_id@) {
                Some(d) => res is Ok && (final(self).device(device_id@) matches Some(d2) && d2.state == state
                    && d2.last_updated == now && d2.info == d.info),
                None => res matches Err(GatewayError::DeviceNotFound(id)) && id@ == device_id@
                    && final(self).device(device_id@) is None,
            },
    {
        if contains_id(&self.unreachable_devices, device_id.as_str()) {
            return Err(GatewayError::DeviceUnreachable(device_id.clone()));
        }
        match table_find(&self.devices, device_id.as_str()) {
            Some(i) => {
                let ghost before = self.devices@;
                proof { lemma_lookup_at(before, pair_key::<MockDevice>(), device_id@, i as int); }
                let (k, mut d) = self.devices.remove(i);
                d.state = state;
                d.last_updated = now;
                let ghost entry = (k, d);
                self.devices.insert(i, (k, d));
                proof {
                    assert(self.devices@ =~= before.update(i as int, entry));
                    crate::keyed::lemma_update_same_key(before, pair_key::<MockDevice>(), i as int, entry);
                    crate::keyed::lemma_lookup_after_update(before, pair_key::<MockDevice>(), i as int, entry);
                    assert(self.devices@.map_values(|e: (String, MockDevice)| e.0@) =~= before.map_values(|e: (String, MockDevice)| e.0@));
                    assert(crate::keyed::lookup(self.devices@, pair_key::<MockDevice>(), device_id@) == Some(entry));
                }
                Ok(())
            },
            None => Err(GatewayError::DeviceNotFound(device_id.clone())),
        }
    }

    /// The gateway's health: reachable, answering in `response_time_ms`, with its device count.
    pub fn health_check(&self, response_time_ms: u64) -> (res: Result<GatewayHealth, GatewayError>)
        ensures
            res matches Ok(h) && h.reachable && h.response_time_ms == response_time_ms
                && h.connected_devices as int == self.devices().len() % 0x1_0000_0000 && h.last_error is None,
    {
        let n = self.devices.len();
        Ok(GatewayHealth {
            reachable: true,
            response_time_ms,
            connected_devices: ((n as u64) % 0x1_0000_0000) as u32,
            last_error: None,
        })
    }
}

} // verus!
