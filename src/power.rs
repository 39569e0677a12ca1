use vstd::prelude::*;

use crate::error::{PowerError, RegField};
use crate::window::{decode_window, encode_window, window_code, window_quarters};
use vstd::arithmetic::power2::{lemma2_to64, lemma_pow2_strictly_increases, pow2};
use vstd::bits::{lemma_u16_shr_is_div, lemma_u32_shl_is_mul};

verus! {

/// A register whose contents can be checked, packed into and read from its
/// raw 64-bit value.
pub trait Regfile: Sized {
    /// What `check` returns: `Ok` when every field fits its bit width, else
    /// the error for the first field that does not.
    spec fn check_spec(&self) -> Result<(), PowerError>;

    /// The fields packed at their bit positions.
    spec fn pack_spec(&self) -> u64;

    /// The fields read from their bit positions.
    spec fn unpack_spec(reg: u64) -> Self;

    fn check(&self) -> (r: Result<(), PowerError>)
        ensures
            r == self.check_spec(),
    ;

    fn to_reg(&self) -> (r: Result<u64, PowerError>)
        ensures
            match self.check_spec() {
                Ok(_) => r == Ok::<u64, PowerError>(self.pack_spec()),
                Err(e) => r == Err::<u64, PowerError>(e),
            },
    ;

    fn from_reg(reg: u64) -> (r: Self)
        ensures
            r == Self::unpack_spec(reg),
    ;
}

/// The multipliers of MSR_RAPL_POWER_UNIT: power is counted in 1/2^pu W,
/// energy in 1/2^esu J and time in 1/2^tu s.
#[derive(Debug, Clone, Copy, PartialEq, Eq, Structural)]
pub struct PowerUnit {
    /// Power unit exponent, bits 3:0.
    pub pu: u8,
    /// Energy status unit exponent, bits 12:8.
    pub esu: u8,
    /// Time unit exponent, bits 19:16.
    pub tu: u8,
}

/// The bits of the power-unit register that hold a field.
pub const POWER_UNIT_MASK: u64 = 0x000f_1f0f;

impl Regfile for PowerUnit {
    open spec fn check_spec(&self) -> Result<(), PowerError> {
        if self.pu > 0xf {
            Err(PowerError::Range(RegField::PowerUnit))
        } else if self.esu > 0x1f {
            Err(PowerError::Range(RegField::EnergyUnit))
        } else if self.tu > 0xf {
            Err(PowerError::Range(RegField::TimeUnit))
        } else {
            Ok(())
        }
    }

    open spec fn pack_spec(&self) -> u64 {
        (self.pu as u64) | ((self.esu as u64) << 8u64) | ((self.tu as u64) << 16u64)
    }

    open spec fn unpack_spec(reg: u64) -> PowerUnit {
        PowerUnit {
            pu: (reg & 0xf) as u8,
            esu: ((reg >> 8u64) & 0x1f) as u8,
            tu: ((reg >> 16u64) & 0xf) as u8,
        }
    }

    fn check(&self) -> (r: Result<(), PowerError>) {
        if self.pu > 0xf {
            return Err(PowerError::Range(RegField::PowerUnit));
        }
        if self.esu > 0x1f {
            return Err(PowerError::Range(RegField::EnergyUnit));
        }
        if self.tu > 0xf {
            return Err(PowerError::Range(RegField::TimeUnit));
        }
        Ok(())
    }

    fn to_reg(&self) -> (r: Result<u64, PowerError>) {
        match self.check() {
            Err(e) => Err(e),
            Ok(()) => Ok((self.pu as u64) | ((self.esu as u64) << 8u64) | ((self.tu as u64) << 16u64)),
        }
    }

    fn from_reg(reg: u64) -> (r: PowerUnit) {
        PowerUnit {
            pu: (reg & 0xf) as u8,
            esu: ((reg >> 8u64) & 0x1f) as u8,
            tu: ((reg >> 16u64) & 0xf) as u8,
        }
    }
}

/// The two limits of MSR_PKG_POWER_LIMIT. Limit 1 lies in bits 23:0 and limit
/// 2 in the same layout in bits 55:32. Powers are counted in power units, time
/// windows are packed as `y | z << 5` and last `2^y * (1 + z/4)` time units.
#[derive(Debug, Clone, Copy, PartialEq, Eq, Structural)]
pub struct PowerLimit {
    /// Power limit 1, bits 14:0.
    pub pl1: u16,
    /// Whether limit 1 is enabled, bit 15.
    pub enable_pl1: bool,
    /// Whether limit 1 is clamped, bit 16: the package must then obey it even
    /// when that costs further frequency reduction.
    pub clamp_pl1: bool,
    /// Time window of limit 1, bits 23:17. The hardware takes the window of
    /// limit 2 from here as well.
    pub time_pl1: u8,
    /// Power limit 2, bits 46:32.
    pub pl2: u16,
    /// Whether limit 2 is enabled, bit 47.
    pub enable_pl2: bool,
    /// Whether limit 2 is clamped, bit 48.
    pub clamp_pl2: bool,
    /// Time window of limit 2, bits 55:49. The hardware ignores it.
    pub time_pl2: u8,
}

/// The bits of the power-limit register that hold a field.
pub const POWER_LIMIT_MASK: u64 = 0x00ff_ffff_00ff_ffff;

/// One limit packed at bit 0: power, enable, clamp and time window.
pub open spec fn limit_bits(power: u16, enable: bool, clamp: bool, time: u8) -> u64 {
    (power as u64) | ((enable as u64) << 15u64) | ((clamp as u64) << 16u64) | ((time as u64) << 17u64)
}

impl Regfile for PowerLimit {
    open spec fn check_spec(&self) -> Result<(), PowerError> {
        if self.pl1 > 0x7fff {
            Err(PowerError::Range(RegField::Pl1))
        } else if self.time_pl1 > 0x7f {
            Err(PowerError::Range(RegField::TimePl1))
        } else if self.pl2 > 0x7fff {
            Err(PowerError::Range(RegField::Pl2))
        } else if self.time_pl2 > 0x7f {
            Err(PowerError::Range(RegField::TimePl2))
        } else {
            Ok(())
        }
    }

    open spec fn pack_spec(&self) -> u64 {
        limit_bits(self.pl1, self.enable_pl1, self.clamp_pl1, self.time_pl1) | (limit_bits(
            self.pl2,
            self.enable_pl2,
            self.clamp_pl2,
            self.time_pl2,
        ) << 32u64)
    }

    open spec fn unpack_spec(reg: u64) -> PowerLimit {
        PowerLimit {
            pl1: (reg & 0x7fff) as u16,
            enable_pl1: reg & (1u64 << 15u64) != 0,
            clamp_pl1: reg & (1u64 << 16u64) != 0,
            time_pl1: ((reg >> 17u64) & 0x7f) as u8,
            pl2: ((reg >> 32u64) & 0x7fff) as u16,
            enable_pl2: reg & (1u64 << 47u64) != 0,
            clamp_pl2: reg & (1u64 << 48u64) != 0,
            time_pl2: ((reg >> 49u64) & 0x7f) as u8,
        }
    }

    fn check(&self) -> (r: Result<(), PowerError>) {
        if self.pl1 > 0x7fff {
            return Err(PowerError::Range(RegField::Pl1));
        }
        if self.time_pl1 > 0x7f {
            return Err(PowerError::Range(RegField::TimePl1));
        }
        if self.pl2 > 0x7fff {
            return Err(PowerError::Range(RegField::Pl2));
        }
        if self.time_pl2 > 0x7f {
            return Err(PowerError::Range(RegField::TimePl2));
        }
        Ok(())
    }

    fn to_reg(&self) -> (r: Result<u64, PowerError>) {
        match self.check() {
            Err(e) => Err(e),
            Ok(()) => {
                let pl1_reg = (self.pl1 as u64) | ((self.enable_pl1 as u64) << 15u64) | ((
                self.clamp_pl1 as u64) << 16u64) | ((self.time_pl1 as u64) << 17u64);
                let pl2_reg = (self.pl2 as u64) | ((self.enable_pl2 as u64) << 15u64) | ((
                self.clamp_pl2 as u64) << 16u64) | ((self.time_pl2 as u64) << 17u64);
                Ok(pl1_reg | (pl2_reg << 32u64))
            },
        }
    }

    fn from_reg(reg: u64) -> (r: PowerLimit) {
        PowerLimit {
            pl1: (reg & 0x7fff) as u16,
            enable_pl1: (reg & (1u64 << 15u64)) != 0,
            clamp_pl1: (reg & (1u64 << 16u64)) != 0,
            time_pl1: ((reg >> 17u64) & 0x7f) as u8,
            pl2: ((reg >> 32u64) & 0x7fff) as u16,
            enable_pl2: (reg & (1u64 << 47u64)) != 0,
            clamp_pl2: (reg & (1u64 << 48u64)) != 0,
            time_pl2: ((reg >> 49u64) & 0x7f) as u8,
        }
    }
}

/// Every raw value decodes to a power unit that passes `check`; a raw value
/// with no bit outside the three fields is encoded back to itself.
pub proof fn lemma_power_unit_round_trip(reg: u64)
    ensures
        PowerUnit::unpack_spec(reg).check_spec() is Ok,
        PowerUnit::unpack_spec(reg).pack_spec() == reg & POWER_UNIT_MASK,
        reg & !POWER_UNIT_MASK == 0 ==> PowerUnit::unpack_spec(reg).pack_spec() == reg,
{
    assert((reg & 0xf) as u8 <= 0xf && ((reg >> 8u64) & 0x1f) as u8 <= 0x1f && ((reg >> 16u64)
        & 0xf) as u8 <= 0xf) by (bit_vector);
    assert((((reg & 0xf) as u8) as u64) | ((((reg >> 8u64) & 0x1f) as u8) as u64) << 8u64 | ((((
    reg >> 16u64) & 0xf) as u8) as u64) << 16u64 == reg & 0x000f_1f0f) by (bit_vector);
    assert(reg & !0x000f_1f0fu64 == 0 ==> reg & 0x000f_1f0f == reg) by (bit_vector);
}

/// A power unit that passes `check` is decoded from its encoding unchanged.
pub proof fn lemma_power_unit_decode_encode(u: PowerUnit)
    requires
        u.check_spec() is Ok,
    ensures
        PowerUnit::unpack_spec(u.pack_spec()) == u,
{
    let (pu, esu, tu) = (u.pu, u.esu, u.tu);
    assert({
        let w = (pu as u64) | ((esu as u64) << 8u64) | ((tu as u64) << 16u64);
        &&& (w & 0xf) as u8 == pu
        &&& ((w >> 8u64) & 0x1f) as u8 == esu
        &&& ((w >> 16u64) & 0xf) as u8 == tu
    }) by (bit_vector)
        requires
            pu <= 0xf,
            esu <= 0x1f,
            tu <= 0xf,
    ;
}

/// Every raw value decodes to a power limit that passes `check`; a raw value
/// with no bit outside the two limits is encoded back to itself.
pub proof fn lemma_power_limit_round_trip(reg: u64)
    ensures
        PowerLimit::unpack_spec(reg).check_spec() is Ok,
        PowerLimit::unpack_spec(reg).pack_spec() == reg & POWER_LIMIT_MASK,
        reg & !POWER_LIMIT_MASK == 0 ==> PowerLimit::unpack_spec(reg).pack_spec() == reg,
{
    let l = PowerLimit::unpack_spec(reg);
    assert(((reg & 0x7fff) as u16) <= 0x7fff && ((reg >> 32u64) & 0x7fff) as u16 <= 0x7fff && ((
    reg >> 17u64) & 0x7f) as u8 <= 0x7f && ((reg >> 49u64) & 0x7f) as u8 <= 0x7f) by (bit_vector);
    let (e1, c1, e2, c2) = (
        l.enable_pl1 as u64,
        l.clamp_pl1 as u64,
        l.enable_pl2 as u64,
        l.clamp_pl2 as u64,
    );
    assert(e1 == (reg >> 15u64) & 1 && c1 == (reg >> 16u64) & 1) by (bit_vector)
        requires
            e1 == (if reg & (1u64 << 15u64) != 0 { 1u64 } else { 0u64 }),
            c1 == (if reg & (1u64 << 16u64) != 0 { 1u64 } else { 0u64 }),
    ;
    assert(e2 == (reg >> 47u64) & 1 && c2 == (reg >> 48u64) & 1) by (bit_vector)
        requires
            e2 == (if reg & (1u64 << 47u64) != 0 { 1u64 } else { 0u64 }),
            c2 == (if reg & (1u64 << 48u64) != 0 { 1u64 } else { 0u64 }),
    ;
    assert(((((reg & 0x7fff) as u16) as u64) | (((reg >> 15u64) & 1) << 15u64) | (((reg >> 16u64)
        & 1) << 16u64) | (((((reg >> 17u64) & 0x7f) as u8) as u64) << 17u64)) | (((((((reg
        >> 32u64) & 0x7fff) as u16) as u64) | (((reg >> 47u64) & 1) << 15u64) | (((reg >> 48u64)
        & 1) << 16u64) | (((((reg >> 49u64) & 0x7f) as u8) as u64) << 17u64))) << 32u64) == reg
        & 0x00ff_ffff_00ff_ffff) by (bit_vector);
    assert(reg & !0x00ff_ffff_00ff_ffffu64 == 0 ==> reg & 0x00ff_ffff_00ff_ffff == reg)
        by (bit_vector);
}

/// A power limit that passes `check` is decoded from its encoding unchanged.
pub proof fn lemma_power_limit_decode_encode(l: PowerLimit)
    requires
        l.check_spec() is Ok,
    ensures
        PowerLimit::unpack_spec(l.pack_spec()) == l,
{
    let (p1, t1, p2, t2) = (l.pl1, l.time_pl1, l.pl2, l.time_pl2);
    let (e1, c1, e2, c2) = (
        l.enable_pl1 as u64,
        l.clamp_pl1 as u64,
        l.enable_pl2 as u64,
        l.clamp_pl2 as u64,
    );
    let w = l.pack_spec();
    assert(w == ((p1 as u64) | (e1 << 15u64) | (c1 << 16u64) | ((t1 as u64) << 17u64)) | (((
    p2 as u64) | (e2 << 15u64) | (c2 << 16u64) | ((t2 as u64) << 17u64)) << 32u64));
    assert({
        &&& (w & 0x7fff) as u16 == p1
        &&& (w & (1u64 << 15u64) != 0) == (e1 == 1)
        &&& (w & (1u64 << 16u64) != 0) == (c1 == 1)
        &&& ((w >> 17u64) & 0x7f) as u8 == t1
        &&& ((w >> 32u64) & 0x7fff) as u16 == p2
        &&& (w & (1u64 << 47u64) != 0) == (e2 == 1)
        &&& (w & (1u64 << 48u64) != 0) == (c2 == 1)
        &&& ((w >> 49u64) & 0x7f) as u8 == t2
    }) by (bit_vector)
        requires
            p1 <= 0x7fff,
            t1 <= 0x7f,
            p2 <= 0x7fff,
            t2 <= 0x7f,
            e1 <= 1,
            c1 <= 1,
            e2 <= 1,
            c2 <= 1,
            w == ((p1 as u64) | (e1 << 15u64) | (c1 << 16u64) | ((t1 as u64) << 17u64)) | (((
            p2 as u64) | (e2 << 15u64) | (c2 << 16u64) | ((t2 as u64) << 17u64)) << 32u64),
    ;
}

/// The power unit and power limit read from the machine. The methods change
/// the limit only: the unit is the context that watts and seconds are
/// converted with.
#[derive(Debug, Clone, Copy, PartialEq, Eq, Structural)]
pub struct PowerStatus {
    pub power_unit: PowerUnit,
    pub power_limit: PowerLimit,
}

/// Edits of the power limit, each applied when present.
#[derive(Debug, Clone, Copy, PartialEq, Eq, Structural)]
pub struct LimitChanges {
    /// Power limit 1, in watts.
    pub pl1: Option<u16>,
    /// Whether limit 1 is clamped.
    pub pl1_clamp: Option<bool>,
    /// Power limit 2, in watts.
    pub pl2: Option<u16>,
    /// Whether limit 2 is clamped.
    pub pl2_clamp: Option<bool>,
    /// Time window of limit 2, in quarters of a time unit.
    pub time_quarters: Option<u64>,
}

/// `watts` in power units of `1/2^pu` W, that is `watts * 2^pu`, saturated
/// at `0xffff`. A value past 15 bits fails the range check of the limit.
pub open spec fn raw_power(watts: u16, pu: u8) -> u16 {
    let v = watts as nat * pow2(pu as nat);
    if v <= 0xffff {
        v as u16
    } else {
        0xffff
    }
}

/// Converts `watts` into power units, saturating at `0xffff`.
pub fn to_raw_power(watts: u16, pu: u8) -> (r: u16)
    requires
        pu < 16,
    ensures
        r == raw_power(watts, pu),
        watts as nat * pow2(pu as nat) <= 0x7fff ==> r == watts as nat * pow2(pu as nat),
        watts as nat * pow2(pu as nat) > 0x7fff ==> r > 0x7fff,
{
    proof {
        lemma2_to64();
        if pu < 15 {
            lemma_pow2_strictly_increases(pu as nat, 15);
        }
        assert(watts as nat * pow2(pu as nat) <= 0xffff * 0x8000) by (nonlinear_arith)
            requires
                pow2(pu as nat) <= 0x8000,
                watts <= 0xffff,
        ;
        lemma_u32_shl_is_mul(watts as u32, pu as u32);
    }
    let v: u32 = (watts as u32) << (pu as u32);
    if v > 0xffff {
        0xffff
    } else {
        v as u16
    }
}

impl PowerStatus {
    /// The status after `set_pl1(watts)`.
    pub open spec fn with_pl1(self, watts: u16) -> PowerStatus {
        PowerStatus {
            power_limit: PowerLimit { pl1: raw_power(watts, self.power_unit.pu), ..self.power_limit },
            ..self
        }
    }

    /// The status after `set_pl2(watts)`.
    pub open spec fn with_pl2(self, watts: u16) -> PowerStatus {
        PowerStatus {
            power_limit: PowerLimit { pl2: raw_power(watts, self.power_unit.pu), ..self.power_limit },
            ..self
        }
    }

    /// The status after `set_pl1_clamp(clamp)`.
    pub open spec fn with_pl1_clamp(self, clamp: bool) -> PowerStatus {
        PowerStatus { power_limit: PowerLimit { clamp_pl1: clamp, ..self.power_limit }, ..self }
    }

    /// The status after `set_pl2_clamp(clamp)`.
    pub open spec fn with_pl2_clamp(self, clamp: bool) -> PowerStatus {
        PowerStatus { power_limit: PowerLimit { clamp_pl2: clamp, ..self.power_limit }, ..self }
    }

    /// The status after `set_pl1_enable(enable)`.
    pub open spec fn with_pl1_enable(self, enable: bool) -> PowerStatus {
        PowerStatus { power_limit: PowerLimit { enable_pl1: enable, ..self.power_limit }, ..self }
    }

    /// The status after `set_pl2_enable(enable)`.
    pub open spec fn with_pl2_enable(self, enable: bool) -> PowerStatus {
        PowerStatus { power_limit: PowerLimit { enable_pl2: enable, ..self.power_limit }, ..self }
    }

    /// The status after `set_pl2_time_quarters(q)`: the window is written to
    /// the field of limit 1, which the hardware reads for limit 2.
    pub open spec fn with_pl2_time(self, q: u64) -> PowerStatus {
        PowerStatus {
            power_limit: PowerLimit { time_pl1: window_code(q), ..self.power_limit },
            ..self
        }
    }

    /// The time window in effect for limit 1, in quarters of a time unit.
    pub open spec fn pl1_window(self) -> nat {
        window_quarters(self.power_limit.time_pl1)
    }

    /// The time window in effect for limit 2, in quarters of a time unit. The
    /// hardware takes it from the field of limit 1.
    pub open spec fn pl2_window(self) -> nat {
        window_quarters(self.power_limit.time_pl1)
    }

    /// The status after `modify_power_limits(c, ..)`.
    pub open spec fn with_changes(self, c: LimitChanges) -> PowerStatus {
        let s1 = match c.pl1 {
            Some(w) => self.with_pl1(w),
            None => self,
        };
        let s2 = match c.pl2 {
            Some(w) => s1.with_pl2(w),
            None => s1,
        };
        let s3 = match c.pl1_clamp {
            Some(b) => s2.with_pl1_clamp(b),
            None => s2,
        };
        let s4 = match c.pl2_clamp {
            Some(b) => s3.with_pl2_clamp(b),
            None => s3,
        };
        match c.time_quarters {
            Some(q) => s4.with_pl2_time(q),
            None => s4,
        }
    }

    /// Decodes the two registers.
    pub fn from_raw(unit_raw: u64, limit_raw: u64) -> (r: PowerStatus)
        ensures
            r.power_unit == PowerUnit::unpack_spec(unit_raw),
            r.power_limit == PowerLimit::unpack_spec(limit_raw),
    {
        PowerStatus {
            power_unit: PowerUnit::from_reg(unit_raw),
            power_limit: PowerLimit::from_reg(limit_raw),
        }
    }

    /// Encodes the power limit for writing back. The power unit is never
    /// written.
    pub fn to_raw(&self) -> (r: Result<u64, PowerError>)
        ensures
            match self.power_limit.check_spec() {
                Ok(_) => r == Ok::<u64, PowerError>(self.power_limit.pack_spec()),
                Err(e) => r == Err::<u64, PowerError>(e),
            },
    {
        self.power_limit.to_reg()
    }

    /// Sets power limit 1 to `watts`, shifted into power units. This never
    /// fails: a value past 15 bits is stored so that `to_raw` refuses it.
    pub fn set_pl1(&mut self, watts: u16)
        requires
            old(self).power_unit.pu < 16,
        ensures
            *final(self) == old(self).with_pl1(watts),
            watts as nat * pow2(old(self).power_unit.pu as nat) <= 0x7fff
                ==> final(self).power_limit.pl1 == watts as nat * pow2(old(self).power_unit.pu as nat),
            watts as nat * pow2(old(self).power_unit.pu as nat) > 0x7fff
                ==> final(self).power_limit.pl1 > 0x7fff,
    {
        self.power_limit.pl1 = to_raw_power(watts, self.power_unit.pu);
    }

    /// Sets power limit 2 to `watts`, shifted into power units, as `set_pl1`.
    pub fn set_pl2(&mut self, watts: u16)
        requires
            old(self).power_unit.pu < 16,
        ensures
            *final(self) == old(self).with_pl2(watts),
            watts as nat * pow2(old(self).power_unit.pu as nat) <= 0x7fff
                ==> final(self).power_limit.pl2 == watts as nat * pow2(old(self).power_unit.pu as nat),
            watts as nat * pow2(old(self).power_unit.pu as nat) > 0x7fff
                ==> final(self).power_limit.pl2 > 0x7fff,
    {
        self.power_limit.pl2 = to_raw_power(watts, self.power_unit.pu);
    }

    /// Sets the time window of limit 2 to `q` quarters of a time unit. It is
    /// written to the field of limit 1, which the hardware reads for limit 2.
    pub fn set_pl2_time_quarters(&mut self, q: u64)
        ensures
            *final(self) == old(self).with_pl2_time(q),
    {
        self.power_limit.time_pl1 = encode_window(q);
    }

    pub fn set_pl1_clamp(&mut self, clamp: bool)
        ensures
            *final(self) == old(self).with_pl1_clamp(clamp),
    {
        self.power_limit.clamp_pl1 = clamp;
    }

    pub fn set_pl2_clamp(&mut self, clamp: bool)
        ensures
            *final(self) == old(self).with_pl2_clamp(clamp),
    {
        self.power_limit.clamp_pl2 = clamp;
    }

    pub fn set_pl1_enable(&mut self, enable: bool)
        ensures
            *final(self) == old(self).with_pl1_enable(enable),
    {
        self.power_limit.enable_pl1 = enable;
    }

    pub fn set_pl2_enable(&mut self, enable: bool)
        ensures
            *final(self) == old(self).with_pl2_enable(enable),
    {
        self.power_limit.enable_pl2 = enable;
    }

    /// Power limit 1 in whole watts: the raw value shifted down by the power
    /// unit exponent, truncating.
    pub fn pl1_watts(&self) -> (r: u16)
        requires
            self.power_unit.pu < 16,
        ensures
            r == self.power_limit.pl1 >> self.power_unit.pu,
    {
        self.power_limit.pl1 >> self.power_unit.pu
    }

    /// Power limit 2 in whole watts, as `pl1_watts`.
    pub fn pl2_watts(&self) -> (r: u16)
        requires
            self.power_unit.pu < 16,
        ensures
            r == self.power_limit.pl2 >> self.power_unit.pu,
    {
        self.power_limit.pl2 >> self.power_unit.pu
    }

    /// The time window of limit 1 in quarters of a time unit.
    pub fn pl1_time_quarters(&self) -> (r: u64)
        ensures
            r as nat == self.pl1_window(),
    {
        decode_window(self.power_limit.time_pl1)
    }

    /// The time window in effect for limit 2 in quarters of a time unit,
    /// read from the field of limit 1.
    pub fn pl2_time_quarters(&self) -> (r: u64)
        ensures
            r as nat == self.pl2_window(),
    {
        decode_window(self.power_limit.time_pl1)
    }
}

/// Applies the edits that are present, in the order power 1, power 2, clamp
/// 1, clamp 2, time window.
pub fn modify_power_limits(changes: &LimitChanges, power_status: &mut PowerStatus)
    requires
        old(power_status).power_unit.pu < 16,
    ensures
        *final(power_status) == old(power_status).with_changes(*changes),
{
    if let Some(pl1) = changes.pl1 {
        power_status.set_pl1(pl1);
    }
    if let Some(pl2) = changes.pl2 {
        power_status.set_pl2(pl2);
    }
    if let Some(pl1_clamp) = changes.pl1_clamp {
        power_status.set_pl1_clamp(pl1_clamp);
    }
    if let Some(pl2_clamp) = changes.pl2_clamp {
        power_status.set_pl2_clamp(pl2_clamp);
    }
    if let Some(time) = changes.time_quarters {
        power_status.set_pl2_time_quarters(time);
    }
}

/// Decoding is a function of the raw value, and decoding the encoding of a
/// decoded power unit gives the same power unit again.
pub proof fn lemma_power_unit_decode_idempotent(reg: u64)
    ensures
        PowerUnit::unpack_spec(PowerUnit::unpack_spec(reg).pack_spec()) == PowerUnit::unpack_spec(
            reg,
        ),
{
    lemma_power_unit_round_trip(reg);
    lemma_power_unit_decode_encode(PowerUnit::unpack_spec(reg));
}

/// Decoding is a function of the raw value, and decoding the encoding of a
/// decoded power limit gives the same power limit again.
pub proof fn lemma_power_limit_decode_idempotent(reg: u64)
    ensures
        PowerLimit::unpack_spec(PowerLimit::unpack_spec(reg).pack_spec())
            == PowerLimit::unpack_spec(reg),
{
    lemma_power_limit_round_trip(reg);
    lemma_power_limit_decode_encode(PowerLimit::unpack_spec(reg));
}

/// Where `watts` in power units fits 15 bits, setting either limit to `watts`
/// stores `watts * 2^pu`, which passes the range check, and reading the limit
/// back in watts gives `watts`. Where it does not fit, the stored limit is
/// past 15 bits and encoding fails with a range error.
pub proof fn lemma_set_watts_read_back(s: PowerStatus, watts: u16)
    requires
        s.power_unit.pu < 16,
    ensures
        watts as nat * pow2(s.power_unit.pu as nat) <= 0x7fff ==> {
            &&& s.with_pl1(watts).power_limit.pl1 == watts as nat * pow2(s.power_unit.pu as nat)
            &&& s.with_pl1(watts).power_limit.pl1 >> s.power_unit.pu == watts
            &&& s.with_pl2(watts).power_limit.pl2 == watts as nat * pow2(s.power_unit.pu as nat)
            &&& s.with_pl2(watts).power_limit.pl2 >> s.power_unit.pu == watts
        },
        watts as nat * pow2(s.power_unit.pu as nat) > 0x7fff ==> {
            &&& s.with_pl1(watts).power_limit.pl1 > 0x7fff
            &&& s.with_pl1(watts).power_limit.check_spec() == Err::<(), PowerError>(
                PowerError::Range(RegField::Pl1),
            )
            &&& s.with_pl2(watts).power_limit.pl2 > 0x7fff
            &&& s.with_pl2(watts).power_limit.check_spec() is Err
        },
{
    let pu = s.power_unit.pu as u16;
    let p = pow2(pu as nat);
    if watts as nat * p <= 0x7fff {
        let v = (watts as nat * p) as u16;
        lemma_u16_shr_is_div(v, pu);
        assert(p > 0) by {
            vstd::arithmetic::power2::lemma_pow2_pos(pu as nat);
        }
        assert((watts as nat * p) / p == watts as nat) by {
            vstd::arithmetic::div_mod::lemma_div_by_multiple(watts as int, p as int);
        }
    }
}

/// After the time window of limit 2 is set, limit 1 and limit 2 have the same
/// window in effect: the one packed from the requested time.
pub proof fn lemma_time_window_shared(s: PowerStatus, q: u64)
    ensures
        s.with_pl2_time(q).pl2_window() == s.with_pl2_time(q).pl1_window(),
        s.with_pl2_time(q).pl2_window() == window_quarters(window_code(q)),
{
}

/// No edit of the limits changes the power unit.
pub proof fn lemma_unit_unchanged(s: PowerStatus, c: LimitChanges, watts: u16, b: bool, q: u64)
    ensures
        s.with_changes(c).power_unit == s.power_unit,
        s.with_pl1(watts).power_unit == s.power_unit,
        s.with_pl2(watts).power_unit == s.power_unit,
        s.with_pl1_clamp(b).power_unit == s.power_unit,
        s.with_pl2_clamp(b).power_unit == s.power_unit,
        s.with_pl1_enable(b).power_unit == s.power_unit,
        s.with_pl2_enable(b).power_unit == s.power_unit,
        s.with_pl2_time(q).power_unit == s.power_unit,
{
}

} // verus!
