//! MM58167A real-time clock of the Kaypro 4/84, reached through a PIO:
//! port 0x20 selects a register, port 0x24 reads or writes it in BCD.
//!
//! The counters follow the host clock plus an offset that the program's
//! writes adjust. The host sets `host_secs`, `host_ms` and `utc_offset_secs`
//! before each access.

use vstd::prelude::*;

verus! {

pub open spec fn bcd(v: u8) -> u8 {
    ((v / 10) * 16 + v % 10) as u8
}

/// Binary to packed BCD (for values below 100).
pub fn to_bcd(val: u8) -> (r: u8)
    requires
        val < 100,
    ensures
        r == bcd(val),
        r / 16 == val / 10,
        r % 16 == val % 10,
{
    (val / 10) * 16 + val % 10
}

/// Packed BCD to binary.
pub fn from_bcd(b: u8) -> (r: u8)
    ensures
        r == (b / 16) * 10 + b % 16,
{
    (b / 16) * 10 + b % 16
}

/// Civil date of a day count since 1970-01-01 (days at or after the epoch).
pub fn civil_from_days(days: u64) -> (r: (u64, u8, u8))
    requires
        days <= 0xFFFF_FFFF,
    ensures
        1 <= r.1 <= 12,
        1 <= r.2 <= 31,
{
    let z = days + 719468;
    let era = z / 146097;
    let doe = z - era * 146097;
    let yoe = (doe - doe / 1460 + doe / 36524 - doe / 146096) / 365;
    assert(yoe <= 399) by (nonlinear_arith)
        requires doe < 146097, yoe == (doe - doe / 1460 + doe / 36524 - doe / 146096) / 365;
    let y = yoe + era * 400;
    assert(365 * yoe + yoe / 4 - yoe / 100 <= doe) by (nonlinear_arith)
        requires doe < 146097, yoe == (doe - doe / 1460 + doe / 36524 - doe / 146096) / 365;
    let doy = doe - (365 * yoe + yoe / 4 - yoe / 100);
    assert(doy <= 365) by (nonlinear_arith)
        requires doe < 146097, yoe == (doe - doe / 1460 + doe / 36524 - doe / 146096) / 365,
            doy == doe - (365 * yoe + yoe / 4 - yoe / 100);
    let mp = (5 * doy + 2) / 153;
    assert((153 * mp + 2) / 5 <= doy && doy - (153 * mp + 2) / 5 <= 30) by (nonlinear_arith)
        requires mp == (5 * doy + 2) / 153, doy <= 365;
    let d = doy - (153 * mp + 2) / 5 + 1;
    let m = if mp < 10 { mp + 3 } else { mp - 9 };
    let y = if m <= 2 { y + 1 } else { y };
    (y, m as u8, d as u8)
}

/// Day of the week, 1 = Sunday to 7 = Saturday (the MM58167A's numbering).
pub fn day_of_week(year: u64, month: u8, day: u8) -> (r: u8)
    requires
        1 <= month <= 12,
        1 <= year <= 0xFFFF_FFFF,
    ensures
        1 <= r <= 7,
{
    let mut y = year;
    let mut m = month as u64;
    if m < 3 {
        m = m + 12;
        y = y - 1;
    }
    let dow = (day as u64 + (13 * (m + 1)) / 5 + y + y / 4 - y / 100 + y / 400) % 7;
    if dow == 0 { 7 } else { dow as u8 }
}

fn digit(d: u8) -> (r: &'static str)
    requires
        d < 10,
{
    if d == 0 { "0" } else if d == 1 { "1" } else if d == 2 { "2" } else if d == 3 { "3" } else if d == 4 { "4" }
    else if d == 5 { "5" } else if d == 6 { "6" } else if d == 7 { "7" } else if d == 8 { "8" } else { "9" }
}

/// Appends a value below 100 as two decimal digits.
fn push_two_digits(s: &mut String, v: u8)
    requires
        v < 100,
{
    s.append(digit(v / 10));
    s.append(digit(v % 10));
}

/// Setting one digit group of a time: with `B = u * k`, replacing the
/// group `(L % B) / u` of `L` by `v` keeps the lower part `L % u` and the
/// higher part `L / B`.
pub proof fn lemma_set_group(l: int, u: int, k: int, v: int)
    requires
        l >= 0,
        u > 0,
        k > 0,
        0 <= v < k,
    ensures
        ({
            let b = u * k;
            let n = l + (v - (l % b) / u) * u;
            &&& n >= 0
            &&& (n % b) / u == v
            &&& n % u == l % u
            &&& n / b == l / b
        }),
{
    let b = u * k;
    assert(b > 0) by (nonlinear_arith) requires u > 0, k > 0, b == u * k;
    let q = l / b;
    let r = l % b;
    vstd::arithmetic::div_mod::lemma_fundamental_div_mod(l, b);
    vstd::arithmetic::div_mod::lemma_mod_bound(l, b);
    let x = r / u;
    let s = r % u;
    vstd::arithmetic::div_mod::lemma_fundamental_div_mod(r, u);
    vstd::arithmetic::div_mod::lemma_mod_bound(r, u);
    assert(x < k && x >= 0) by (nonlinear_arith) requires r == u * x + s, 0 <= s < u, 0 <= r < b, b == u * k, u > 0;
    let n = l + (v - x) * u;
    assert(n == q * b + (v * u + s)) by (nonlinear_arith) requires l == b * q + r, r == u * x + s, n == l + (v - x) * u;
    assert(0 <= v * u + s < b) by (nonlinear_arith) requires 0 <= v < k, 0 <= s < u, b == u * k;
    vstd::arithmetic::div_mod::lemma_fundamental_div_mod_converse(n, b, q, v * u + s);
    vstd::arithmetic::div_mod::lemma_fundamental_div_mod_converse(v * u + s, u, v, s);
    assert(n == (q * k + v) * u + s) by (nonlinear_arith) requires n == q * b + (v * u + s), b == u * k;
    vstd::arithmetic::div_mod::lemma_fundamental_div_mod_converse(n, u, q * k + v, s);
    assert(l == (q * k + x) * u + s) by (nonlinear_arith) requires l == b * q + r, r == u * x + s, b == u * k;
    vstd::arithmetic::div_mod::lemma_fundamental_div_mod_converse(l, u, q * k + x, s);
    assert(q >= 0) by (nonlinear_arith) requires l >= 0, b > 0, q == l / b;
}

/// Largest local time the calendar handles, in seconds.
pub const MAX_LOCAL_SECS: i64 = 371085174288000;

pub struct Rtc {
    pub reg_select: u8,
    /// RAM latches 0x08-0x0F.
    pub ram: Vec<u8>,
    /// Seconds the clock runs ahead of the host.
    pub time_offset_secs: i64,
    /// Host clock: seconds since the epoch, milliseconds, offset of the local zone.
    pub host_secs: i64,
    pub host_ms: u16,
    pub utc_offset_secs: i64,
}

/// Broken-down clock time: milliseconds, second, minute, hour, day of week,
/// day, month.
pub struct ClockTime {
    pub ms: u16,
    pub sec: u8,
    pub min: u8,
    pub hour: u8,
    pub dow: u8,
    pub day: u8,
    pub month: u8,
}

impl Rtc {
    pub open spec fn wf(&self) -> bool {
        self.ram@.len() == 8
    }

    pub fn new() -> (r: Rtc)
        ensures
            r.wf(),
            r.reg_select == 0,
            r.time_offset_secs == 0,
            forall|i: int| 0 <= i < 8 ==> r.ram@[i] == 0,
    {
        Rtc { reg_select: 0, ram: vec![0u8; 8], time_offset_secs: 0, host_secs: 0, host_ms: 0, utc_offset_secs: 0 }
    }

    /// Local seconds since the epoch, clamped to the range the calendar handles.
    pub open spec fn local_secs(&self) -> int {
        let t = self.host_secs as int + self.time_offset_secs as int + self.utc_offset_secs as int;
        if t < 0 { 0 } else if t > 371085174288000int { 371085174288000int } else { t }
    }

    fn local_secs_exec(&self) -> (r: u64)
        ensures
            r == self.local_secs(),
    {
        let t = (self.host_secs as i128) + (self.time_offset_secs as i128) + (self.utc_offset_secs as i128);
        if t < 0 {
            0
        } else if t > 371085174288000i128 {
            371085174288000u64
        } else {
            t as u64
        }
    }

    /// The clock's time now.
    pub fn current_time(&self) -> (r: ClockTime)
        ensures
            r.sec == self.local_secs() % 60,
            r.min == (self.local_secs() % 3600) / 60,
            r.hour == (self.local_secs() % 86400) / 3600,
            r.ms == self.host_ms,
            1 <= r.month <= 12,
            1 <= r.day <= 31,
            1 <= r.dow <= 7,
    {
        let local = self.local_secs_exec();
        proof {
            vstd::arithmetic::div_mod::lemma_div_by_multiple(0xFFFF_FFFFint, 86400);
            assert(0xFFFF_FFFFint * 86400 == 371085174288000int);
            vstd::arithmetic::div_mod::lemma_div_is_ordered(local as int, 0xFFFF_FFFFint * 86400, 86400);
        }
        let (year, month, day) = civil_from_days(local / 86400);
        let day_secs = local % 86400;
        let hour = (day_secs / 3600) as u8;
        let min = ((day_secs % 3600) / 60) as u8;
        let sec = (day_secs % 60) as u8;
        proof {
            vstd::arithmetic::div_mod::lemma_mod_mod(local as int, 3600, 24);
            vstd::arithmetic::div_mod::lemma_mod_mod(local as int, 60, 1440);
        }
        let y = if year == 0 { 1 } else if year > 0xFFFF_FFFF { 0xFFFF_FFFF } else { year };
        let dow = day_of_week(y, month, day);
        ClockTime { ms: self.host_ms, sec, min, hour, dow, day, month }
    }

    /// The hours, minutes and seconds of the clock.
    pub fn current_time_hms(&self) -> (r: (u8, u8, u8))
        ensures
            r.0 == self.local_secs() % 60,
            r.1 == (self.local_secs() % 3600) / 60,
            r.2 == (self.local_secs() % 86400) / 3600,
    {
        let t = self.current_time();
        (t.sec, t.min, t.hour)
    }

    /// The clock for the status line: `RTC:MM/DD HH:MM:SS`.
    pub fn status_string(&self) -> (r: String) {
        let t = self.current_time();
        let mut s = "RTC:".to_owned();
        push_two_digits(&mut s, t.month);
        s.append("/");
        push_two_digits(&mut s, t.day);
        s.append(" ");
        push_two_digits(&mut s, t.hour);
        s.append(":");
        push_two_digits(&mut s, t.min);
        s.append(":");
        push_two_digits(&mut s, t.sec);
        s
    }

    /// Port 0x20 write: selects a register (5 bits).
    pub fn write_addr(&mut self, value: u8)
        ensures
            *final(self) == (Rtc { reg_select: value % 32, ..*old(self) }),
    {
        self.reg_select = value % 32;
    }

    /// Port 0x20 read: the selected register number.
    pub fn read_addr(&self) -> (r: u8)
        ensures
            r == self.reg_select,
    {
        self.reg_select
    }

    /// Port 0x22 write: PIO control, accepted and ignored.
    pub fn write_control(&mut self, value: u8)
        ensures
            *final(self) == *old(self),
    {
    }

    /// Value of a counter register, in BCD but for the day of week.
    pub fn read_counter(&self, reg: u8) -> (r: u8)
        ensures
            reg == 2 ==> r == bcd((self.local_secs() % 60) as u8),
            reg == 3 ==> r == bcd(((self.local_secs() % 3600) / 60) as u8),
            reg == 4 ==> r == bcd(((self.local_secs() % 86400) / 3600) as u8),
            reg > 7 ==> r == 0,
    {
        let t = self.current_time();
        if reg == 0 {
            to_bcd((t.ms % 100) as u8)
        } else if reg == 1 {
            to_bcd((t.ms / 10 % 100) as u8)
        } else if reg == 2 {
            to_bcd(t.sec)
        } else if reg == 3 {
            to_bcd(t.min)
        } else if reg == 4 {
            to_bcd(t.hour)
        } else if reg == 5 {
            t.dow
        } else if reg == 6 {
            to_bcd(t.day % 100)
        } else if reg == 7 {
            to_bcd(t.month)
        } else {
            0
        }
    }

    /// Host time plus offset, before clamping.
    pub open spec fn raw_secs(&self) -> int {
        self.host_secs as int + self.time_offset_secs as int + self.utc_offset_secs as int
    }

    /// Seconds a write of `v` to counter 2 (seconds), 3 (minutes) or 4 (hours)
    /// moves the clock by; 0 for the other registers but the date ones.
    pub open spec fn counter_delta(&self, reg: u8, v: int) -> int {
        let l = self.local_secs();
        if reg == 2 {
            v - l % 60
        } else if reg == 3 {
            (v - (l % 3600) / 60) * 60
        } else if reg == 4 {
            (v - (l % 86400) / 3600) * 3600
        } else {
            0
        }
    }

    /// The result of writing a BCD value to a counter register: seconds,
    /// minutes and hours move the offset by `counter_delta`, so that the
    /// counter then reads the value and the other time fields are kept;
    /// sub-second and day-of-week writes are ignored.
    pub open spec fn counter_set(o: Rtc, f: Rtc, reg: u8, b: u8) -> bool {
        let v = (b / 16) as int * 10 + (b % 16) as int;
        let d = o.counter_delta(reg, v);
        let l = o.local_secs();
        let fits = 0 <= o.raw_secs() <= MAX_LOCAL_SECS && 0 <= o.raw_secs() + d <= MAX_LOCAL_SECS
            && i64::MIN <= o.time_offset_secs + d <= i64::MAX;
        &&& f.reg_select == o.reg_select
        &&& f.ram == o.ram
        &&& f.host_secs == o.host_secs
        &&& f.host_ms == o.host_ms
        &&& f.utc_offset_secs == o.utc_offset_secs
        &&& (reg < 2 || reg == 5 || reg > 7) ==> f == o
        &&& (2 <= reg <= 4 && fits) ==> f.time_offset_secs == o.time_offset_secs + d && f.local_secs() == l + d
        &&& (reg == 2 && v < 60 && fits) ==> f.local_secs() % 60 == v && f.local_secs() / 60 == l / 60
        &&& (reg == 3 && v < 60 && fits) ==> (f.local_secs() % 3600) / 60 == v
            && f.local_secs() % 60 == l % 60 && f.local_secs() / 3600 == l / 3600
        &&& (reg == 4 && v < 24 && fits) ==> (f.local_secs() % 86400) / 3600 == v
            && f.local_secs() % 3600 == l % 3600 && f.local_secs() / 86400 == l / 86400
    }

    /// A write to a counter moves the clock's offset so that the counter reads
    /// the value written (months count as 30 days); sub-second and day-of-week
    /// writes are ignored.
    pub fn set_counter(&mut self, reg: u8, bcd_value: u8)
        ensures
            Self::counter_set(*old(self), *final(self), reg, bcd_value),
    {
        proof {
            let v = (bcd_value / 16) as int * 10 + (bcd_value % 16) as int;
            let l = self.local_secs();
            if reg == 2 && v < 60 {
                lemma_set_group(l, 1, 60, v);
            } else if reg == 3 && v < 60 {
                lemma_set_group(l, 60, 60, v);
            } else if reg == 4 && v < 24 {
                lemma_set_group(l, 3600, 24, v);
            }
        }
        let t = self.current_time();
        let val = from_bcd(bcd_value) as i64;
        let delta: i64 = if reg == 2 {
            val - t.sec as i64
        } else if reg == 3 {
            (val - t.min as i64) * 60
        } else if reg == 4 {
            (val - t.hour as i64) * 3600
        } else if reg == 6 {
            (val - t.day as i64) * 86400
        } else if reg == 7 {
            (val - t.month as i64) * 30 * 86400
        } else {
            0
        };
        if delta != 0 {
            let sum = self.time_offset_secs as i128 + delta as i128;
            self.time_offset_secs = if sum > i64::MAX as i128 {
                i64::MAX
            } else if sum < i64::MIN as i128 {
                i64::MIN
            } else {
                sum as i64
            };
        }
    }

    /// Port 0x24 write: the selected counter, RAM latch, or reset register.
    pub fn write_data(&mut self, value: u8)
        requires
            old(self).wf(),
        ensures
            final(self).wf(),
            final(self).reg_select == old(self).reg_select,
            old(self).reg_select <= 7 ==> Self::counter_set(*old(self), *final(self), old(self).reg_select, value),
            8 <= old(self).reg_select <= 15 ==> final(self).ram@ == old(self).ram@.update(old(self).reg_select - 8, value),
            old(self).reg_select == 0x12 && value == 0xFF ==> final(self).time_offset_secs == 0,
            old(self).reg_select == 0x13 && value == 0xFF ==> forall|i: int| 0 <= i < 8 ==> final(self).ram@[i] == 0,
    {
        let reg = self.reg_select;
        if reg <= 7 {
            self.set_counter(reg, value);
        } else if reg <= 15 {
            self.ram.set((reg - 8) as usize, value);
        } else if reg == 0x12 {
            if value == 0xFF {
                self.time_offset_secs = 0;
            }
        } else if reg == 0x13 {
            if value == 0xFF {
                self.ram = vec![0u8; 8];
            }
        }
    }

    /// Port 0x24 read: the selected counter or RAM latch; 0 for the rest.
    pub fn read_data(&self) -> (r: u8)
        requires
            self.wf(),
        ensures
            self.reg_select == 2 ==> r == bcd((self.local_secs() % 60) as u8),
            8 <= self.reg_select <= 15 ==> r == self.ram@[self.reg_select - 8],
            self.reg_select > 15 ==> r == 0,
    {
        let reg = self.reg_select;
        if reg <= 7 {
            self.read_counter(reg)
        } else if reg <= 15 {
            self.ram[(reg - 8) as usize]
        } else {
            0
        }
    }
}

} // verus!
