//! Devices, their capability classes, and the registry that enumerates them.

use crate::value::ScaledValue;
use vstd::prelude::*;

verus! {

/// What a sensor measures.
#[derive(Clone, Copy, Debug, PartialEq, Eq, Structural)]
pub enum SensorKind {
    /// A sensor of no more specific kind.
    Other,
    Btn,
    Temp,
    Hum,
    Light,
    Accel,
    Mag,
    Gyro,
    Color,
    Press,
    Analog,
    Uv,
    Objtemp,
    Count,
    Distance,
    Co2,
    Tvoc,
    Gas,
    Occup,
    Proximity,
    Rssi,
    Charge,
    Current,
    Pm,
    Capacitance,
    Voltage,
    Ph,
    Power,
    Size,
}

/// What an actuator drives.
#[derive(Clone, Copy, Debug, PartialEq, Eq, Structural)]
pub enum ActuatorKind {
    /// An actuator of no more specific kind.
    Other,
    LedRgb,
    Servo,
    Motor,
    Switch,
    Dimmer,
}

/// The role of a device and its kind within that role.
#[derive(Clone, Copy, Debug, PartialEq, Eq, Structural)]
pub enum CapabilityClass {
    Sensor(SensorKind),
    Actuator(ActuatorKind),
}

impl CapabilityClass {
    /// Whether a device of this class can be read.
    pub open spec fn readable(self) -> bool {
        self is Sensor
    }

    /// Whether a device of this class can be written.
    pub open spec fn writable(self) -> bool {
        self is Actuator
    }

    /// Whether a device of this class can be read.
    pub fn is_sensor(self) -> (r: bool)
        ensures
            r == self.readable(),
    {
        match self {
            CapabilityClass::Sensor(_) => true,
            CapabilityClass::Actuator(_) => false,
        }
    }

    /// Whether a device of this class can be written.
    pub fn is_actuator(self) -> (r: bool)
        ensures
            r == self.writable(),
    {
        match self {
            CapabilityClass::Sensor(_) => false,
            CapabilityClass::Actuator(_) => true,
        }
    }
}

/// What a `Device` stands for: its position in the platform's table, its
/// name where it has one, and its class.
pub ghost struct DeviceView {
    pub id: nat,
    pub name: Option<Seq<char>>,
    pub class: CapabilityClass,
}

/// A handle to one sensor or actuator of the platform. It names the device;
/// the hardware stays with the platform.
#[derive(Clone, Copy, Debug, PartialEq, Eq)]
pub struct Device<'a> {
    id: usize,
    name: Option<&'a str>,
    class: CapabilityClass,
}

impl<'a> View for Device<'a> {
    type V = DeviceView;

    closed spec fn view(&self) -> DeviceView {
        DeviceView {
            id: self.id as nat,
            name: match self.name {
                Some(s) => Some(s@),
                None => None,
            },
            class: self.class,
        }
    }
}

impl<'a> Device<'a> {
    /// The device's identity: its position in the registry.
    pub fn id(&self) -> (r: usize)
        ensures
            r == self@.id,
    {
        self.id
    }

    /// The device's name, where the platform gave one.
    pub fn name(&self) -> (r: Option<&'a str>)
        ensures
            r is Some <==> self@.name is Some,
            r is Some ==> r->0@ == self@.name->0,
    {
        self.name
    }

    /// The device's class.
    pub fn class(&self) -> (r: CapabilityClass)
        ensures
            r == self@.class,
    {
        self.class
    }
}

/// A hardware transaction that failed: a bus error, a timeout, a fault of
/// the device. The code is the platform's.
#[derive(Clone, Copy, Debug, PartialEq, Eq, Structural)]
pub struct HardwareFault {
    pub code: i32,
}

/// Why a device could not be read.
#[derive(Clone, Copy, Debug, PartialEq, Eq, Structural)]
pub enum ReadError {
    /// The device is no sensor.
    NotReadable,
    /// The hardware transaction failed.
    Hardware(HardwareFault),
}

/// Why a device could not be written.
#[derive(Clone, Copy, Debug, PartialEq, Eq, Structural)]
pub enum WriteError {
    /// The device is no actuator.
    NotWritable,
    /// The hardware transaction failed.
    Hardware(HardwareFault),
}

/// What reading a device of class `class` gives when the hardware
/// transaction gave `transaction`.
pub open spec fn read_result(
    class: CapabilityClass,
    transaction: Result<ScaledValue, HardwareFault>,
) -> Result<ScaledValue, ReadError> {
    if !class.readable() {
        Err(ReadError::NotReadable)
    } else {
        match transaction {
            Ok(value) => Ok(value),
            Err(fault) => Err(ReadError::Hardware(fault)),
        }
    }
}

/// What writing a device of class `class` gives when the hardware
/// transaction gave `transaction`.
pub open spec fn write_result(
    class: CapabilityClass,
    transaction: Result<(), HardwareFault>,
) -> Result<(), WriteError> {
    if !class.writable() {
        Err(WriteError::NotWritable)
    } else {
        match transaction {
            Ok(done) => Ok(done),
            Err(fault) => Err(WriteError::Hardware(fault)),
        }
    }
}

impl<'a> Device<'a> {
    /// The outcome of reading this device, from what the platform's read of
    /// it gave. A device that is no sensor is never read: for it the outcome
    /// is `NotReadable` whatever the platform says. A failed transaction is
    /// handed on as it is, not tried again.
    pub fn read_with(&self, transaction: Result<ScaledValue, HardwareFault>) -> (r: Result<
        ScaledValue,
        ReadError,
    >)
        ensures
            r == read_result(self@.class, transaction),
    {
        if !self.class.is_sensor() {
            Err(ReadError::NotReadable)
        } else {
            match transaction {
                Ok(value) => Ok(value),
                Err(fault) => Err(ReadError::Hardware(fault)),
            }
        }
    }

    /// The outcome of writing this device, from what the platform's write to
    /// it gave. A device that is no actuator is never written: for it the
    /// outcome is `NotWritable` whatever the platform says. A failed
    /// transaction is handed on as it is, not tried again.
    pub fn write_with(&self, transaction: Result<(), HardwareFault>) -> (r: Result<(), WriteError>)
        ensures
            r == write_result(self@.class, transaction),
    {
        if !self.class.is_actuator() {
            Err(WriteError::NotWritable)
        } else {
            match transaction {
                Ok(done) => Ok(done),
                Err(fault) => Err(WriteError::Hardware(fault)),
            }
        }
    }
}

/// A predicate over capability classes. An implementation names its set of
/// classes in `admits` and decides membership in `test`; the two agree.
pub trait ClassPredicate {
    /// Whether `class` belongs to the predicate's set.
    spec fn admits(&self, class: CapabilityClass) -> bool;

    /// Decides whether the predicate holds of `class`.
    fn test(&self, class: CapabilityClass) -> (r: bool)
        ensures
            r == self.admits(class),
    ;
}

/// Holds of exactly one class.
#[derive(Clone, Copy, Debug, PartialEq, Eq, Structural)]
pub struct Exactly(pub CapabilityClass);

/// Holds of every sensor class.
#[derive(Clone, Copy, Debug, PartialEq, Eq, Structural)]
pub struct AnySensor;

/// Holds of every actuator class.
#[derive(Clone, Copy, Debug, PartialEq, Eq, Structural)]
pub struct AnyActuator;

impl ClassPredicate for Exactly {
    open spec fn admits(&self, class: CapabilityClass) -> bool {
        class == self.0
    }

    fn test(&self, class: CapabilityClass) -> (r: bool) {
        class == self.0
    }
}

impl ClassPredicate for AnySensor {
    open spec fn admits(&self, class: CapabilityClass) -> bool {
        class.readable()
    }

    fn test(&self, class: CapabilityClass) -> (r: bool) {
        class.is_sensor()
    }
}

impl ClassPredicate for AnyActuator {
    open spec fn admits(&self, class: CapabilityClass) -> bool {
        class.writable()
    }

    fn test(&self, class: CapabilityClass) -> (r: bool) {
        class.is_actuator()
    }
}

/// The devices of `all` whose class satisfies `p`, in the order of `all`.
pub open spec fn matching<P: ClassPredicate>(all: Seq<DeviceView>, p: P) -> Seq<DeviceView> {
    all.filter(|d: DeviceView| p.admits(d.class))
}

/// The characters of a name, where there is one.
pub open spec fn name_view(name: Option<String>) -> Option<Seq<char>> {
    match name {
        Some(s) => Some(s@),
        None => None,
    }
}

/// One row of the platform's table.
#[derive(Debug)]
struct Entry {
    name: Option<String>,
    class: CapabilityClass,
}

/// The devices known at boot, in the platform's enumeration order. Devices
/// are added while the platform's table is walked and never removed.
#[derive(Debug)]
pub struct DeviceRegistry {
    entries: Vec<Entry>,
}

impl View for DeviceRegistry {
    type V = Seq<DeviceView>;

    closed spec fn view(&self) -> Seq<DeviceView> {
        Seq::new(
            self.entries@.len(),
            |i: int|
                DeviceView {
                    id: i as nat,
                    name: name_view(self.entries@[i].name),
                    class: self.entries@[i].class,
                },
        )
    }
}

impl DeviceRegistry {
    /// A registry without devices.
    pub fn new() -> (r: DeviceRegistry)
        ensures
            r@ == Seq::<DeviceView>::empty(),
    {
        DeviceRegistry { entries: Vec::new() }
    }

    /// Adds the platform's next device and returns its identity.
    pub fn register(&mut self, name: Option<String>, class: CapabilityClass) -> (id: usize)
        ensures
            id == old(self)@.len(),
            final(self)@ == old(self)@.push(
                DeviceView { id: id as nat, name: name_view(name), class },
            ),
    {
        let id: usize = self.entries.len();
        self.entries.push(Entry { name, class });
        id
    }

    /// The number of devices.
    pub fn len(&self) -> (n: usize)
        ensures
            n == self@.len(),
    {
        self.entries.len()
    }

    /// The device with identity `id`, if there is one.
    pub fn get(&self, id: usize) -> (r: Option<Device<'_>>)
        ensures
            id < self@.len() ==> r is Some && r->0@ == self@[id as int],
            id >= self@.len() ==> r is None,
            self@.len() <= usize::MAX,
    {
        if id < self.entries.len() {
            let entry = &self.entries[id];
            let name: Option<&str> = match &entry.name {
                Some(s) => Some(s.as_str()),
                None => None,
            };
            Some(Device { id, name, class: entry.class })
        } else {
            None
        }
    }

    /// Starts an enumeration of every device, in registry order. Each call
    /// starts at the first device again.
    pub fn all(&self) -> (r: Devices<'_>)
        ensures
            r.remaining() == self@,
    {
        Devices { registry: self, position: 0 }
    }

    /// The first device, in registry order, whose class satisfies `p`;
    /// `None` where no device's class does.
    pub fn first_matching<P: ClassPredicate>(&self, p: P) -> (r: Option<Device<'_>>)
        ensures
            r is Some <==> matching(self@, p).len() > 0,
            r is Some ==> r->0@ == matching(self@, p)[0],
    {
        let mut found = self.all().filter(p);
        found.next()
    }

    /// The first device, in registry order, of exactly the class `class`;
    /// `None` where the registry holds no device of that class.
    pub fn first_of_class(&self, class: CapabilityClass) -> (r: Option<Device<'_>>)
        ensures
            r is Some <==> position_of_class(self@, class, 0) is Some,
            r is Some ==> r->0@ == self@[position_of_class(self@, class, 0)->0],
    {
        proof {
            lemma_first_match(self@, Exactly(class));
            lemma_position_of_class(self@, class, 0);
        }
        self.first_matching(Exactly(class))
    }

    /// Every device whose class satisfies `p`, in registry order.
    pub fn all_matching<P: ClassPredicate>(&self, p: P) -> (r: Vec<Device<'_>>)
        ensures
            views_of(r@) == matching(self@, p),
    {
        let mut found = self.all().filter(p);
        let mut out: Vec<Device<'_>> = Vec::new();
        let ghost whole = found.remaining();
        loop
            invariant
                views_of(out@) + found.remaining() == whole,
            ensures
                views_of(out@) == whole,
            decreases found.remaining().len(),
        {
            match found.next() {
                Some(d) => {
                    out.push(d);
                },
                None => {
                    break ;
                },
            }
        }
        out
    }
}

/// The views of a sequence of device handles.
pub open spec fn views_of(handles: Seq<Device<'_>>) -> Seq<DeviceView> {
    handles.map_values(|d: Device<'_>| d@)
}

/// An enumeration in progress: the devices of a registry not yet handed out.
pub struct Devices<'a> {
    registry: &'a DeviceRegistry,
    position: usize,
}

impl<'a> Devices<'a> {
    #[verifier::type_invariant]
    spec fn well_formed(&self) -> bool {
        self.position <= self.registry@.len()
    }

    /// The devices still to come, next one first.
    pub closed spec fn remaining(&self) -> Seq<DeviceView> {
        self.registry@.skip(self.position as int)
    }

    /// Hands out the next device, or `None` when none is left.
    pub fn next(&mut self) -> (r: Option<Device<'a>>)
        ensures
            r is Some <==> old(self).remaining().len() > 0,
            r is Some ==> r->0@ == old(self).remaining()[0] && final(self).remaining() == old(
                self,
            ).remaining().skip(1),
            r is None ==> final(self).remaining() == old(self).remaining(),
    {
        proof {
            use_type_invariant(&*self);
        }
        match self.registry.get(self.position) {
            Some(d) => {
                self.position = self.position + 1;
                Some(d)
            },
            None => None,
        }
    }

    /// Keeps of the devices still to come those whose class satisfies `p`.
    /// Nothing is enumerated until the result is asked for a device.
    pub fn filter<P: ClassPredicate>(self, p: P) -> (r: Filtered<'a, P>)
        ensures
            r.remaining() == matching(self.remaining(), p),
    {
        proof {
            use_type_invariant(&self);
        }
        Filtered { registry: self.registry, position: self.position, accept: p }
    }
}

/// A filtered enumeration in progress.
pub struct Filtered<'a, P: ClassPredicate> {
    registry: &'a DeviceRegistry,
    position: usize,
    accept: P,
}

impl<'a, P: ClassPredicate> Filtered<'a, P> {
    #[verifier::type_invariant]
    spec fn well_formed(&self) -> bool {
        self.position <= self.registry@.len()
    }

    /// The accepted devices still to come, next one first.
    pub closed spec fn remaining(&self) -> Seq<DeviceView> {
        matching(self.registry@.skip(self.position as int), self.accept)
    }

    /// Hands out the next accepted device, or `None` when none is left.
    pub fn next(&mut self) -> (r: Option<Device<'a>>)
        ensures
            r is Some <==> old(self).remaining().len() > 0,
            r is Some ==> r->0@ == old(self).remaining()[0] && final(self).remaining() == old(
                self,
            ).remaining().skip(1),
            r is None ==> final(self).remaining() == old(self).remaining(),
    {
        proof {
            use_type_invariant(&*self);
        }
        loop
            invariant
                self.position <= self.registry@.len(),
                self.accept == old(self).accept,
                self.registry == old(self).registry,
                self.remaining() == old(self).remaining(),
            decreases self.registry@.len() - self.position,
        {
            let ghost before = self.registry@.skip(self.position as int);
            let ghost test = |d: DeviceView| self.accept.admits(d.class);
            match self.registry.get(self.position) {
                Some(d) => {
                    self.position = self.position + 1;
                    proof {
                        let rest = self.registry@.skip(self.position as int);
                        assert(before =~= seq![before[0]] + rest);
                        rest.lemma_filter_prepend(before[0], test);
                    }
                    if self.accept.test(d.class()) {
                        return Some(d);
                    }
                },
                None => {
                    proof {
                        reveal(Seq::filter);
                    }
                    return None;
                },
            }
        }
    }
}

/// The first accepted device of a table stands at the first position whose
/// class satisfies the predicate; where the table holds no accepted device,
/// no class in it satisfies the predicate.
pub proof fn lemma_first_match<P: ClassPredicate>(all: Seq<DeviceView>, p: P)
    ensures
        matching(all, p).len() == 0 <==> forall|i: int|
            0 <= i < all.len() ==> !p.admits((#[trigger] all[i]).class),
        matching(all, p).len() > 0 ==> exists|i: int|
            0 <= i < all.len() && #[trigger] all[i] == matching(all, p)[0] && p.admits(all[i].class) && forall|j: int| 0 <= j < i ==> !p.admits((#[trigger] all[j]).class),
    decreases all.len(),
{
    let test = |d: DeviceView| p.admits(d.class);
    if all.len() == 0 {
        reveal(Seq::filter);
    } else {
        let rest = all.skip(1);
        assert(all =~= seq![all[0]] + rest);
        rest.lemma_filter_prepend(all[0], test);
        lemma_first_match(rest, p);
        if !p.admits(all[0].class) && matching(all, p).len() > 0 {
            let i = choose|i: int|
                0 <= i < rest.len() && #[trigger] rest[i] == matching(rest, p)[0] && p.admits(
                    rest[i].class,
                ) && forall|j: int| 0 <= j < i ==> !p.admits((#[trigger] rest[j]).class);
            assert forall|j: int| 0 <= j < i + 1 implies !p.admits((#[trigger] all[j]).class) by {}
        }
        if matching(all, p).len() == 0 {
            assert forall|i: int| 0 <= i < all.len() implies !p.admits(
                (#[trigger] all[i]).class,
            ) by {}
        }
        if forall|i: int| 0 <= i < all.len() ==> !p.admits((#[trigger] all[i]).class) {
            assert forall|i: int| 0 <= i < rest.len() implies !p.admits(
                (#[trigger] rest[i]).class,
            ) by {}
        }
    }
}

/// The first position at or after `from` whose device is of class `class`.
pub open spec fn position_of_class(all: Seq<DeviceView>, class: CapabilityClass, from: int) -> Option<
    int,
>
    decreases all.len() - from,
{
    if !(0 <= from < all.len()) {
        None
    } else if all[from].class == class {
        Some(from)
    } else {
        position_of_class(all, class, from + 1)
    }
}

/// `position_of_class` gives the first position at or after `from` that
/// holds a device of the class, and `None` exactly when no position from
/// there on holds one.
pub proof fn lemma_position_of_class(all: Seq<DeviceView>, class: CapabilityClass, from: int)
    requires
        0 <= from,
    ensures
        position_of_class(all, class, from) is None <==> forall|i: int|
            from <= i < all.len() ==> (#[trigger] all[i]).class != class,
        position_of_class(all, class, from) matches Some(at) ==> from <= at < all.len()
            && all[at].class == class && forall|i: int|
            from <= i < at ==> (#[trigger] all[i]).class != class,
    decreases all.len() - from,
{
    if from < all.len() && all[from].class != class {
        lemma_position_of_class(all, class, from + 1);
    }
}

/// A device's identity is its position in the registry's order. Every
/// enumeration of a registry starts from the same sequence, so two
/// enumerations of one registry hand out the same identities in the same
/// order: `0, 1, 2, ...`.
pub proof fn lemma_identities_are_positions(registry: DeviceRegistry, i: int)
    requires
        0 <= i < registry@.len(),
    ensures
        registry@[i].id == i,
{
}

/// Two enumerations of one registry, each taken from its start, have the same
/// devices to come, in the same order.
pub proof fn lemma_enumeration_repeats(
    registry: DeviceRegistry,
    first: Devices<'_>,
    second: Devices<'_>,
)
    requires
        first.remaining() == registry@,
        second.remaining() == registry@,
    ensures
        first.remaining() == second.remaining(),
        forall|i: int|
            0 <= i < first.remaining().len() ==> (#[trigger] first.remaining()[i]).id == i && (
            #[trigger] second.remaining()[i]).id == i,
{
}

} // verus!
