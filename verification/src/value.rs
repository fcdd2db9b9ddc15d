//! Fixed-point measurement values: up to three signed channels that share one
//! decimal scale exponent and one physical unit.

use vstd::prelude::*;

verus! {

/// The largest number of channels one value carries.
pub const MAX_CHANNELS: usize = 3;

/// Physical unit of a measurement or command.
#[derive(Clone, Copy, Debug, PartialEq, Eq, Structural)]
pub enum Unit {
    /// The device gave no unit at all.
    Undefined,
    /// The data has no physical unit.
    Unitless,
    TempC,
    TempF,
    TempK,
    Lux,
    M,
    M2,
    M3,
    GForce,
    Dps,
    Gram,
    A,
    V,
    W,
    Gauss,
    T,
    Dbm,
    Coulomb,
    F,
    Ohm,
    Ph,
    Bar,
    Pa,
    Cd,
    Bool,
    Cts,
    Percent,
    Permill,
    Ppm,
    Ppb,
    Time,
    Date,
    Gpm3,
    Cpm3,
}

/// A channel index at or beyond the channel count.
#[derive(Clone, Copy, Debug, PartialEq, Eq, Structural)]
pub struct IndexError {
    pub index: usize,
    pub count: usize,
}

/// More channels than a value can carry.
#[derive(Clone, Copy, Debug, PartialEq, Eq, Structural)]
pub struct CapacityError {
    pub requested: usize,
}

/// Why a reading cannot be compared against a limit.
#[derive(Clone, Copy, Debug, PartialEq, Eq, Structural)]
#[allow(inconsistent_fields)]
pub enum Mismatch {
    /// The reading's unit is not the expected one.
    Unit { expected: Unit, found: Unit },
    /// The reading's scale exponent is not the expected one.
    Scale { expected: i8, found: i8 },
    /// The reading has no channel at the index asked for.
    Channel { index: usize, count: usize },
}

/// What a `ScaledValue` stands for.
pub ghost struct ScaledValueView {
    pub channels: Seq<int>,
    pub scale: int,
    pub unit: Unit,
}

/// A value against which one channel of a reading is compared. It states the
/// unit and scale that the caller assumes the reading to have.
#[derive(Clone, Copy, Debug, PartialEq, Eq, Structural)]
pub struct Limit {
    pub value: i16,
    pub scale: i8,
    pub unit: Unit,
}

/// Ten to the power `n`.
pub open spec fn pow10(n: nat) -> nat
    decreases n,
{
    if n == 0 {
        1
    } else {
        10 * pow10((n - 1) as nat)
    }
}

/// The magnitude `value * 10^scale`, counted in steps of `10^exp`. It is an
/// integer for every `exp <= scale`.
pub open spec fn magnitude_in(value: int, scale: int, exp: int) -> int
    recommends
        exp <= scale,
{
    value * pow10((scale - exp) as nat)
}

/// What `exceeds` answers for a reading and a limit.
pub open spec fn exceeds_spec(reading: ScaledValueView, channel: int, limit: Limit) -> Result<
    bool,
    Mismatch,
> {
    if reading.unit != limit.unit {
        Err(Mismatch::Unit { expected: limit.unit, found: reading.unit })
    } else if reading.scale != limit.scale {
        Err(Mismatch::Scale { expected: limit.scale, found: reading.scale as i8 })
    } else if !(0 <= channel < reading.channels.len()) {
        Err(Mismatch::Channel { index: channel as usize, count: reading.channels.len() as usize })
    } else {
        Ok(reading.channels[channel] > limit.value)
    }
}

/// The channels of `data` as mathematical integers.
pub open spec fn channels_of(data: Seq<i16>) -> Seq<int> {
    data.map_values(|v: i16| v as int)
}

/// A fixed-point value: `channels[i] * 10^scale` in `unit`.
#[derive(Clone, Copy, Debug, PartialEq, Eq)]
pub struct ScaledValue {
    slots: [i16; 3],
    used: usize,
    scale: i8,
    unit: Unit,
}

impl View for ScaledValue {
    type V = ScaledValueView;

    closed spec fn view(&self) -> ScaledValueView {
        ScaledValueView {
            channels: channels_of(self.slots@.take(self.used as int)),
            scale: self.scale as int,
            unit: self.unit,
        }
    }
}

impl ScaledValue {
    /// At most `MAX_CHANNELS` slots are in use, and the others hold zero, so
    /// that two values with the same channels are equal slot by slot.
    #[verifier::type_invariant]
    spec fn well_formed(&self) -> bool {
        &&& self.used <= MAX_CHANNELS
        &&& forall|i: int| self.used <= i < MAX_CHANNELS ==> self.slots@[i] == 0
    }

    /// Builds a value from its channels, or refuses more than `MAX_CHANNELS`.
    pub fn new(data: &[i16], scale: i8, unit: Unit) -> (r: Result<ScaledValue, CapacityError>)
        ensures
            data@.len() <= MAX_CHANNELS ==> r is Ok && r->Ok_0@ == (ScaledValueView {
                channels: channels_of(data@),
                scale: scale as int,
                unit,
            }),
            data@.len() > MAX_CHANNELS ==> r == Err::<ScaledValue, CapacityError>(
                CapacityError { requested: data@.len() as usize },
            ),
    {
        let n: usize = data.len();
        if n > MAX_CHANNELS {
            return Err(CapacityError { requested: n });
        }
        let mut slots: [i16; 3] = [0, 0, 0];
        let mut i: usize = 0;
        while i < n
            invariant
                n == data@.len(),
                n <= MAX_CHANNELS,
                i <= n,
                slots@.take(i as int) == data@.take(i as int),
                forall|j: int| i <= j < MAX_CHANNELS ==> slots@[j] == 0,
            decreases n - i,
        {
            slots[i] = data[i];
            i += 1;
        }
        assert(data@.take(n as int) == data@);
        Ok(ScaledValue { slots, used: n, scale, unit })
    }

    /// A value of one channel.
    pub fn single(value: i16, scale: i8, unit: Unit) -> (r: ScaledValue)
        ensures
            r@ == (ScaledValueView { channels: seq![value as int], scale: scale as int, unit }),
    {
        let slots: [i16; 3] = [value, 0, 0];
        assert(channels_of(slots@.take(1)) == seq![value as int]);
        ScaledValue { slots, used: 1, scale, unit }
    }

    /// The number of channels: at most `MAX_CHANNELS`.
    pub fn channel_count(&self) -> (n: usize)
        ensures
            n == self@.channels.len(),
            n <= MAX_CHANNELS,
    {
        proof {
            use_type_invariant(self);
        }
        self.used
    }

    /// The channel at `index`, or an `IndexError` at or beyond the count.
    pub fn value_at(&self, index: usize) -> (r: Result<i16, IndexError>)
        ensures
            index < self@.channels.len() ==> r is Ok && r->Ok_0 == self@.channels[index as int],
            index >= self@.channels.len() ==> r == Err::<i16, IndexError>(
                IndexError { index, count: self@.channels.len() as usize },
            ),
    {
        proof {
            use_type_invariant(self);
        }
        if index < self.used {
            Ok(self.slots[index])
        } else {
            Err(IndexError { index, count: self.used })
        }
    }

    /// The decimal exponent shared by all channels.
    pub fn scale(&self) -> (s: i8)
        ensures
            s == self@.scale,
    {
        self.scale
    }

    /// The unit shared by all channels.
    pub fn unit(&self) -> (u: Unit)
        ensures
            u == self@.unit,
    {
        self.unit
    }

    /// Whether channel `channel` lies strictly above `limit`. The unit and the
    /// scale of the reading must be those of the limit: a reading in another
    /// unit or at another scale is refused, never rescaled.
    pub fn exceeds(&self, channel: usize, limit: &Limit) -> (r: Result<bool, Mismatch>)
        ensures
            r == exceeds_spec(self@, channel as int, *limit),
    {
        proof {
            use_type_invariant(self);
        }
        if !unit_eq(self.unit, limit.unit) {
            Err(Mismatch::Unit { expected: limit.unit, found: self.unit })
        } else if self.scale != limit.scale {
            Err(Mismatch::Scale { expected: limit.scale, found: self.scale })
        } else if channel >= self.used {
            Err(Mismatch::Channel { index: channel, count: self.used })
        } else {
            Ok(self.slots[channel] > limit.value)
        }
    }
}

/// Whether two units are the same.
pub fn unit_eq(a: Unit, b: Unit) -> (r: bool)
    ensures
        r == (a == b),
{
    a == b
}

/// Every power of ten is positive.
pub proof fn lemma_pow10_positive(n: nat)
    ensures
        pow10(n) > 0,
    decreases n,
{
    if n > 0 {
        lemma_pow10_positive((n - 1) as nat);
    }
}

/// Two values at one scale stand in the order of their magnitudes: counted in
/// steps of any `10^exp` with `exp <= scale`, `a * 10^scale` lies above
/// `b * 10^scale` exactly when `a` lies above `b`.
pub proof fn lemma_same_scale_order(a: int, b: int, scale: int, exp: int)
    requires
        exp <= scale,
    ensures
        magnitude_in(a, scale, exp) > magnitude_in(b, scale, exp) <==> a > b,
        magnitude_in(a, scale, scale) == a,
{
    let p = pow10((scale - exp) as nat);
    lemma_pow10_positive((scale - exp) as nat);
    assert(a > b ==> a * p > b * p) by (nonlinear_arith)
        requires
            p > 0,
    ;
    assert(a <= b ==> a * p <= b * p) by (nonlinear_arith)
        requires
            p > 0,
    ;
    assert((scale - scale) as nat == 0 && pow10(0) == 1);
}

/// When `exceeds` answers at all, the reading and the limit agree in unit and
/// scale, and the answer is the order of the two magnitudes
/// `channel * 10^scale` and `limit.value * 10^limit.scale`.
pub proof fn lemma_exceeds_orders_magnitudes(
    reading: ScaledValueView,
    channel: int,
    limit: Limit,
    exp: int,
)
    requires
        exceeds_spec(reading, channel, limit) is Ok,
        exp <= reading.scale,
    ensures
        reading.unit == limit.unit,
        reading.scale == limit.scale,
        0 <= channel < reading.channels.len(),
        exceeds_spec(reading, channel, limit)->Ok_0 == (magnitude_in(
            reading.channels[channel],
            reading.scale,
            exp,
        ) > magnitude_in(limit.value as int, limit.scale as int, exp)),
{
    lemma_same_scale_order(reading.channels[channel], limit.value as int, reading.scale, exp);
}

} // verus!
