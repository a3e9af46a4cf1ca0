//! The devices known to the application: those reported by the Buttplug server
//! and the Lovense toys added by address.
use vstd::prelude::*;

use crate::text::{chars_of, string_from_chars, trim, trim_str};
use crate::wt_telemetry::str_eq;

verus! {

/// Where a device is driven from.
#[derive(Debug, Clone, Copy, PartialEq, Eq, Structural)]
pub enum DeviceType {
    Buttplug,
    Lovense,
}

/// A device as the interface lists it.
pub struct DeviceInfo {
    pub id: u32,
    pub name: String,
    pub device_type: DeviceType,
    pub connected: bool,
}

/// A Lovense toy reached over its LAN API.
pub struct LovenseDevice {
    pub id: String,
    pub name: String,
    pub ip_address: String,
    pub port: u16,
}

/// Why a device could not be removed.
#[derive(Debug, Clone, Copy, PartialEq, Eq, Structural)]
pub enum DeviceError {
    /// No Lovense device has the given id.
    NotFound,
}

/// The port of the Lovense LAN API when none is given.
pub const LOVENSE_DEFAULT_PORT: u16 = 20010;

/// The port to use: the given one, else the LAN API's default.
pub fn lovense_port(port: Option<u16>) -> (r: u16)
    ensures
        r == match port {
            Some(p) => p,
            None => LOVENSE_DEFAULT_PORT,
        },
{
    match port {
        Some(p) => p,
        None => LOVENSE_DEFAULT_PORT,
    }
}

/// The id of the Lovense toy at `ip`: "lovense_" and the address with its dots
/// made underscores.
pub open spec fn lovense_id_spec(ip: Seq<char>) -> Seq<char> {
    "lovense_"@ + ip.map_values(|c: char| if c == '.' { '_' } else { c })
}

/// The id of the Lovense toy at `ip`.
pub fn lovense_device_id(ip: &str) -> (r: String)
    ensures
        r@ == lovense_id_spec(ip@),
{
    let prefix = "lovense_";
    proof {
        reveal_strlit("lovense_");
    }
    let mut v = chars_of(prefix);
    let cs = chars_of(ip);
    let n = cs.len();
    for i in 0..n
        invariant
            n == cs.len(),
            cs@ == ip@,
            v@ == "lovense_"@ + ip@.take(i as int).map_values(|c: char| if c == '.' { '_' } else { c }),
    {
        let c = cs[i];
        let d = if c == '.' { '_' } else { c };
        v.push(d);
        assert(ip@.take(i + 1).map_values(|c: char| if c == '.' { '_' } else { c }) =~= ip@.take(
            i as int,
        ).map_values(|c: char| if c == '.' { '_' } else { c }).push(d));
    }
    assert(ip@.take(n as int) =~= ip@);
    string_from_chars(&v)
}

/// No two Lovense toys share an id.
pub open spec fn ids_distinct(s: Seq<LovenseDevice>) -> bool {
    forall|i: int, j: int|
        0 <= i < s.len() && 0 <= j < s.len() && i != j ==> #[trigger] s[i].id@ != #[trigger] s[j].id@
}

/// The devices without those named `name`, in order.
pub open spec fn without_named(ds: Seq<DeviceInfo>, name: Seq<char>) -> Seq<DeviceInfo>
    decreases ds.len(),
{
    if ds.len() == 0 {
        ds
    } else {
        let rest = without_named(ds.drop_first(), name);
        if ds[0].name@ == name {
            rest
        } else {
            seq![ds[0]] + rest
        }
    }
}

/// The position of the Lovense toy with id `id`.
pub open spec fn lovense_position(s: Seq<LovenseDevice>, id: Seq<char>) -> Option<int> {
    if exists|i: int| 0 <= i < s.len() && #[trigger] s[i].id@ == id {
        Some(choose|i: int| 0 <= i < s.len() && #[trigger] s[i].id@ == id)
    } else {
        None
    }
}

/// `toys` is `old_toys` with the toy at `ip:port` named `name` stored under its
/// id: in the place of the toy with that id, or else after the others.
pub open spec fn toy_added(
    old_toys: Seq<LovenseDevice>,
    toys: Seq<LovenseDevice>,
    ip: Seq<char>,
    port: u16,
    name: Seq<char>,
) -> bool {
    let id = lovense_id_spec(ip);
    let at = match lovense_position(old_toys, id) {
        Some(i) => i,
        None => old_toys.len() as int,
    };
    &&& toys.len() == (if lovense_position(old_toys, id) is Some {
        old_toys.len() as int
    } else {
        old_toys.len() + 1int
    })
    &&& forall|j: int| 0 <= j < old_toys.len() && j != at ==> toys[j] == old_toys[j]
    &&& toys[at].id@ == id
    &&& toys[at].name@ == name
    &&& toys[at].ip_address@ == ip
    &&& toys[at].port == port
}

/// A toy added by its address is found under its id, and removing it by that
/// id leaves no toy with that id: adding and then removing a toy forgets it.
pub proof fn law_added_toy_is_removable(
    old_toys: Seq<LovenseDevice>,
    toys: Seq<LovenseDevice>,
    ip: Seq<char>,
    port: u16,
    name: Seq<char>,
)
    requires
        ids_distinct(toys),
        toy_added(old_toys, toys, ip, port, name),
    ensures
        lovense_position(toys, lovense_id_spec(ip)) is Some,
        forall|j: int|
            0 <= j < toys.len() - 1 ==> (#[trigger] toys.remove(
                lovense_position(toys, lovense_id_spec(ip))->0,
            )[j]).id@ != lovense_id_spec(ip),
{
    let id = lovense_id_spec(ip);
    let at = match lovense_position(old_toys, id) {
        Some(i) => i,
        None => old_toys.len() as int,
    };
    assert(0 <= at < toys.len() && toys[at].id@ == id);
    let p = lovense_position(toys, id)->0;
    assert(p == at) by {
        if p != at {
            assert(toys[p].id@ != toys[at].id@);
        }
    }
    assert forall|j: int| 0 <= j < toys.len() - 1 implies (#[trigger] toys.remove(p)[j]).id@ != id by {
        let k = if j < p { j } else { j + 1 };
        assert(toys.remove(p)[j] == toys[k]);
        assert(toys[k].id@ != toys[at].id@);
    }
}

/// The devices listed to the user and the Lovense toys added by address.
pub struct DeviceRegistry {
    devices: Vec<DeviceInfo>,
    lovense: Vec<LovenseDevice>,
}

impl DeviceRegistry {
    /// The listed devices, in order.
    pub closed spec fn devices(&self) -> Seq<DeviceInfo> {
        self.devices@
    }

    /// The Lovense toys.
    pub closed spec fn lovense(&self) -> Seq<LovenseDevice> {
        self.lovense@
    }

    /// Each Lovense toy is held once.
    pub open spec fn wf(&self) -> bool {
        ids_distinct(self.lovense())
    }

    /// No devices.
    pub fn new() -> (r: Self)
        ensures
            r.wf(),
            r.devices() == Seq::<DeviceInfo>::empty(),
            r.lovense() == Seq::<LovenseDevice>::empty(),
    {
        DeviceRegistry { devices: Vec::new(), lovense: Vec::new() }
    }

    /// The listed devices.
    pub fn get_devices(&self) -> (r: &Vec<DeviceInfo>)
        ensures
            r@ == self.devices(),
    {
        &self.devices
    }

    /// Replaces the listed devices with those the Buttplug server reports.
    pub fn set_devices(&mut self, devices: Vec<DeviceInfo>)
        ensures
            final(self).devices() == devices@,
            final(self).lovense() == old(self).lovense(),
    {
        self.devices = devices;
    }

    /// The Lovense toys.
    pub fn get_lovense(&self) -> (r: &Vec<LovenseDevice>)
        ensures
            r@ == self.lovense(),
    {
        &self.lovense
    }

    /// Whether any Lovense toy has been added.
    pub fn is_lovense_connected(&self) -> (r: bool)
        ensures
            r == (self.lovense().len() > 0),
    {
        self.lovense.len() > 0
    }

    fn find_lovense(&self, id: &str) -> (r: Option<usize>)
        ensures
            match r {
                Some(i) => i < self.lovense().len() && self.lovense()[i as int].id@ == id@,
                None => forall|i: int|
                    0 <= i < self.lovense().len() ==> #[trigger] self.lovense()[i].id@ != id@,
            },
    {
        let n = self.lovense.len();
        for i in 0..n
            invariant
                n == self.lovense@.len(),
                forall|j: int| 0 <= j < i ==> #[trigger] self.lovense@[j].id@ != id@,
        {
            if str_eq(self.lovense[i].id.as_str(), id) {
                return Some(i);
            }
        }
        None
    }

    /// Records the Lovense toy at `ip:port` that answered with `name_reply`: the
    /// toy is stored under its id (replacing one with the same id), named by the
    /// reply without surrounding white space, and listed as a connected device
    /// whose number is the count of listed devices before it.
    pub fn add_lovense_device(&mut self, ip: &str, port: u16, name_reply: &str)
        requires
            old(self).wf(),
        ensures
            final(self).wf(),
            toy_added(old(self).lovense(), final(self).lovense(), ip@, port, trim(name_reply@)),
            final(self).devices().len() == old(self).devices().len() + 1,
            final(self).devices().drop_last() == old(self).devices(),
            final(self).devices().last().id == old(self).devices().len() as u32,
            final(self).devices().last().name@ == trim(name_reply@),
            final(self).devices().last().device_type == DeviceType::Lovense,
            final(self).devices().last().connected,
    {
        let id = lovense_device_id(ip);
        let name = trim_str(name_reply);
        let toy = LovenseDevice {
            id: id.clone(),
            name: name.clone(),
            ip_address: String::from_str(ip),
            port: port,
        };
        let ghost s0 = self.lovense@;
        let ghost idv = id@;
        match self.find_lovense(id.as_str()) {
            Some(i) => {
                self.lovense.set(i, toy);
                proof {
                    let s1 = self.lovense@;
                    let p0 = lovense_position(s0, idv)->0;
                    assert(s0[i as int].id@ == idv);
                    assert(p0 == i) by {
                        if p0 != i {
                            assert(s0[p0].id@ != s0[i as int].id@);
                        }
                    }
                    assert forall|a: int, b: int|
                        0 <= a < s1.len() && 0 <= b < s1.len() && a != b implies #[trigger] s1[a].id@
                        != #[trigger] s1[b].id@ by {
                        if a != i && b != i {
                            assert(s0[a].id@ != s0[b].id@);
                        } else if a == i {
                            assert(s0[i as int].id@ != s0[b].id@);
                        } else {
                            assert(s0[a].id@ != s0[i as int].id@);
                        }
                    }
                }
            },
            None => {
                self.lovense.push(toy);
                proof {
                    let s1 = self.lovense@;
                    let n = s0.len() as int;
                    assert forall|a: int, b: int|
                        0 <= a < s1.len() && 0 <= b < s1.len() && a != b implies #[trigger] s1[a].id@
                        != #[trigger] s1[b].id@ by {
                        if a != n && b != n {
                            assert(s0[a].id@ != s0[b].id@);
                        } else if a == n {
                            assert(s0[b].id@ != idv);
                        } else {
                            assert(s0[a].id@ != idv);
                        }
                    }
                }
            },
        }
        let number = self.devices.len() as u32;
        self.devices.push(DeviceInfo { id: number, name: name, device_type: DeviceType::Lovense, connected: true });
        assert(self.devices@.drop_last() =~= old(self).devices@);
    }

    /// Removes the Lovense toy with id `device_id` and unlists every device with
    /// its name; `NotFound`, and nothing changed, when no toy has that id.
    pub fn remove_lovense_device(&mut self, device_id: &str) -> (r: Result<(), DeviceError>)
        requires
            old(self).wf(),
        ensures
            final(self).wf(),
            r is Ok == lovense_position(old(self).lovense(), device_id@) is Some,
            match lovense_position(old(self).lovense(), device_id@) {
                Some(i) => {
                    &&& final(self).lovense() == old(self).lovense().remove(i)
                    &&& final(self).devices() == without_named(
                        old(self).devices(),
                        old(self).lovense()[i].name@,
                    )
                },
                None => final(self).lovense() == old(self).lovense() && final(self).devices()
                    == old(self).devices(),
            },
    {
        let ghost s0 = self.lovense@;
        match self.find_lovense(device_id) {
            None => Err(DeviceError::NotFound),
            Some(i) => {
                proof {
                    let p = lovense_position(s0, device_id@)->0;
                    assert(s0[i as int].id@ == device_id@);
                    assert(p == i) by {
                        if p != i {
                            assert(s0[p].id@ != s0[i as int].id@);
                        }
                    }
                }
                let toy = self.lovense.remove(i);
                proof {
                    let s1 = self.lovense@;
                    assert forall|a: int, b: int|
                        0 <= a < s1.len() && 0 <= b < s1.len() && a != b implies #[trigger] s1[a].id@
                        != #[trigger] s1[b].id@ by {
                        let a0 = if a < i { a } else { a + 1 };
                        let b0 = if b < i { b } else { b + 1 };
                        assert(s1[a] == s0[a0]);
                        assert(s1[b] == s0[b0]);
                        assert(s0[a0].id@ != s0[b0].id@);
                    }
                }
                let ghost target = without_named(self.devices@, toy.name@);
                let mut rest: Vec<DeviceInfo> = Vec::new();
                std::mem::swap(&mut rest, &mut self.devices);
                while rest.len() > 0
                    invariant
                        self.devices@ + without_named(rest@, toy.name@) == target,
                        self.lovense@ == s0.remove(i as int),
                    decreases rest.len(),
                {
                    let ghost r0 = rest@;
                    let ghost kept = self.devices@;
                    let d = rest.remove(0);
                    assert(rest@ =~= r0.drop_first());
                    if !str_eq(d.name.as_str(), toy.name.as_str()) {
                        self.devices.push(d);
                        assert(kept.push(r0[0]) + without_named(rest@, toy.name@) =~= kept + (seq![
                            r0[0],
                        ] + without_named(rest@, toy.name@)));
                    }
                }
                assert(self.devices@ + without_named(rest@, toy.name@) =~= self.devices@);
                Ok(())
            },
        }
    }
}

} // verus!
