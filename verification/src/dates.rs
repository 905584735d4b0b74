//! Dates and times, and expirations kept as whole UNIX seconds.
use vstd::prelude::*;
use vstd::std_specs::convert::FromSpecImpl;

verus! {

/// The first second of the year -262143, in seconds since the UNIX epoch: the
/// earliest that chrono represents.
pub const MIN_TIMESTAMP: i64 = -8_334_601_228_800;

/// The last second of the year 262142, in seconds since the UNIX epoch: the latest
/// that chrono represents.
pub const MAX_TIMESTAMP: i64 = 8_210_266_876_799;

/// Whether chrono represents a second.
pub open spec fn is_timestamp(secs: int) -> bool {
    MIN_TIMESTAMP <= secs <= MAX_TIMESTAMP
}

/// Calls `chrono::NaiveDateTime::from_timestamp_opt`. The contract claims that the
/// date and time lies that many seconds and nanoseconds after the UNIX epoch, and
/// that there is one exactly if chrono represents the second and the nanoseconds
/// are less than one second, or less than two (a leap second) where the second is
/// the last of its minute.
#[allow(deprecated)]
#[verifier::external_body]
fn chrono_from_timestamp_opt(secs: i64, nsecs: u32) -> (parts: Option<(i64, u32)>)
    ensures
        parts == (if is_timestamp(secs as int) && (nsecs < 1_000_000_000 || (nsecs < 2_000_000_000
            && secs as int % 60 == 59)) {
            Some((secs, nsecs))
        } else {
            None
        }),
{
    let date_time = chrono::NaiveDateTime::from_timestamp_opt(secs, nsecs)?.and_utc();
    Some((date_time.timestamp(), date_time.timestamp_subsec_nanos()))
}

/// Calls `with_nanosecond` (of `chrono::Timelike`) on the `chrono::NaiveDateTime`
/// that lies `secs` seconds and `nanos` nanoseconds after the UNIX epoch. The
/// contract claims that the nanoseconds are replaced and the seconds kept, and that
/// this fails exactly if the new nanoseconds are two seconds or more.
#[allow(deprecated)]
#[verifier::external_body]
fn chrono_with_nanosecond(secs: i64, nanos: u32, nano: u32) -> (parts: Option<(i64, u32)>)
    requires
        is_timestamp(secs as int),
        nanos < 2_000_000_000,
    ensures
        parts == (if nano < 2_000_000_000 {
            Some((secs, nano))
        } else {
            None
        }),
{
    let second = chrono::NaiveDateTime::from_timestamp_opt(secs, 0)?;
    let receiver = chrono::Timelike::with_nanosecond(&second, nanos)?;
    let date_time = chrono::Timelike::with_nanosecond(&receiver, nano)?.and_utc();
    Some((date_time.timestamp(), date_time.timestamp_subsec_nanos()))
}

/// Calls `chrono::Utc::now`. The contract claims that the clock's reading lies not
/// before the UNIX epoch, in a second that chrono represents, and is no leap second.
/// Nothing else is claimed of it. A system clock set before the epoch, or past the
/// last second that chrono represents, makes the call panic.
#[verifier::external_body]
fn chrono_utc_now() -> (parts: (i64, u32))
    ensures
        0 <= parts.0 <= MAX_TIMESTAMP,
        parts.1 < 1_000_000_000,
{
    let now = chrono::Utc::now();
    (now.timestamp(), now.timestamp_subsec_nanos())
}

/// A date and time without a time zone: the whole seconds since the UNIX epoch, and
/// the nanoseconds since that second. The nanoseconds can exceed one second, but not
/// two: that is a leap second.
#[derive(Debug, Clone, Copy, PartialEq, Eq, Structural)]
pub struct DateTimeParts {
    secs: i64,
    nanos: u32,
}

impl DateTimeParts {
    #[verifier::type_invariant]
    closed spec fn is_valid(self) -> bool {
        is_timestamp(self.secs as int) && self.nanos < 2_000_000_000
    }

    /// The whole seconds since the UNIX epoch.
    pub closed spec fn secs(self) -> int {
        self.secs as int
    }

    /// The nanoseconds since the whole second.
    pub closed spec fn nanos(self) -> int {
        self.nanos as int
    }

    /// Whether this date and time is the other one or lies before it.
    pub open spec fn not_after(self, other: DateTimeParts) -> bool {
        self.secs() < other.secs() || (self.secs() == other.secs() && self.nanos()
            <= other.nanos())
    }

    /// The start of this date and time's second.
    pub closed spec fn start_of_second(self) -> DateTimeParts {
        DateTimeParts { secs: self.secs, nanos: 0 }
    }

    /// The date and time so many seconds and nanoseconds after the UNIX epoch, where
    /// there is one.
    pub fn from_timestamp_opt(secs: i64, nsecs: u32) -> (date_time: Option<DateTimeParts>)
        ensures
            date_time is Some <==> is_timestamp(secs as int) && (nsecs < 1_000_000_000 || (nsecs
                < 2_000_000_000 && secs as int % 60 == 59)),
            date_time matches Some(d) ==> d.secs() == secs && d.nanos() == nsecs,
    {
        match chrono_from_timestamp_opt(secs, nsecs) {
            Some((secs, nanos)) => Some(DateTimeParts { secs, nanos }),
            None => None,
        }
    }

    /// The whole seconds since the UNIX epoch.
    pub fn timestamp(&self) -> (secs: i64)
        ensures
            secs == self.secs(),
            is_timestamp(secs as int),
    {
        proof {
            use_type_invariant(self);
        }
        self.secs
    }

    /// The nanoseconds since the whole second.
    pub fn nanosecond(&self) -> (nanos: u32)
        ensures
            nanos == self.nanos(),
            nanos < 2_000_000_000,
    {
        proof {
            use_type_invariant(self);
        }
        self.nanos
    }

    /// The same second with other nanoseconds; none where they are two seconds or
    /// more.
    pub fn with_nanosecond(&self, nano: u32) -> (changed: Option<DateTimeParts>)
        ensures
            changed is Some <==> nano < 2_000_000_000,
            changed matches Some(d) ==> d.secs() == self.secs() && d.nanos() == nano && (nano == 0
                ==> d == self.start_of_second()),
    {
        proof {
            use_type_invariant(self);
        }
        match chrono_with_nanosecond(self.secs, self.nanos, nano) {
            Some((secs, nanos)) => Some(DateTimeParts { secs, nanos }),
            None => None,
        }
    }

    /// Whether this date and time is the other one or lies before it.
    pub fn is_not_after(&self, other: &DateTimeParts) -> (r: bool)
        ensures
            r == self.not_after(*other),
    {
        self.secs < other.secs || (self.secs == other.secs && self.nanos <= other.nanos)
    }
}

/// A date and time is known by its seconds and nanoseconds.
pub proof fn law_date_time_is_its_parts(a: DateTimeParts, b: DateTimeParts)
    ensures
        a == b <==> a.secs() == b.secs() && a.nanos() == b.nanos(),
        a.start_of_second().secs() == a.secs(),
        a.start_of_second().nanos() == 0,
{
}

/// A date and time of the database.
#[derive(Debug, Clone, Copy, PartialEq, Eq, Structural)]
pub struct DBDateTime(pub DateTimeParts);

impl DBDateTime {
    /// Takes a date and time.
    pub fn new(date_time: DateTimeParts) -> (r: DBDateTime)
        ensures
            r == DBDateTime(date_time),
    {
        DBDateTime(date_time)
    }

    /// Whether the system clock can show this date and time.
    pub open spec fn is_clock_reading(self) -> bool {
        0 <= self.0.secs() <= MAX_TIMESTAMP && 0 <= self.0.nanos() < 1_000_000_000
    }

    /// Whether a call of the clock gave this date and time.
    pub closed spec fn was_read(self) -> bool {
        exists|parts: (i64, u32)|
            #[trigger] call_ensures(chrono_utc_now, (), parts) && self.0.secs() == parts.0
                && self.0.nanos() == parts.1
    }

    /// The current date and time.
    pub fn now() -> (now: DBDateTime)
        ensures
            now.is_clock_reading(),
            now.was_read(),
    {
        let (secs, nanos) = chrono_utc_now();
        DBDateTime(DateTimeParts { secs, nanos })
    }
}

/// The current date and time is what a call of the clock gave, to the nanosecond.
proof fn law_now_is_what_the_clock_shows(now: DBDateTime)
    requires
        call_ensures(DBDateTime::now, (), now),
    ensures
        exists|parts: (i64, u32)| #[trigger]
            call_ensures(chrono_utc_now, (), parts) && now.0.secs == parts.0 && now.0.nanos
                == parts.1,
{
}

/// A datetime stored in DB as a UNIX seconds timestamp.
#[derive(Debug, Clone, PartialEq, Eq, Structural)]
pub struct DBExpiration(pub DateTimeParts);

impl DBExpiration {
    // GETTERS ----------------------------------------------------------------

    /// Checks this datetime against now as if it is an expiration.
    pub fn is_expired(&self) -> (expired: bool)
        ensures
            exists|now: DBDateTime|
                #[trigger] call_ensures(DBDateTime::now, (), now) && now.is_clock_reading()
                    && expired == self.0.not_after(now.0),
    {
        let now = DBDateTime::now();
        self.is_expired_at(&now)
    }

    /// Checks this datetime against another as if it is an expiration.
    pub fn is_expired_at(&self, now: &DBDateTime) -> (expired: bool)
        ensures
            expired == self.0.not_after(now.0),
    {
        self.0.is_not_after(&now.0)
    }

    // STORAGE ----------------------------------------------------------------

    /// The expiration of a date and time: the start of its second.
    pub open spec fn of(date_time: DBDateTime) -> DBExpiration {
        DBExpiration(date_time.0.start_of_second())
    }

    /// The expiration at a UNIX seconds timestamp.
    pub closed spec fn at(timestamp: i64) -> DBExpiration {
        DBExpiration(DateTimeParts { secs: timestamp, nanos: 0 })
    }

    /// The UNIX seconds timestamp to store.
    pub fn serialize(&self) -> (timestamp: i64)
        ensures
            timestamp == self.0.secs(),
            is_timestamp(timestamp as int),
    {
        self.0.timestamp()
    }

    /// Takes a stored UNIX seconds timestamp.
    pub fn visit_i64(value: i64) -> (expiration: DBExpiration)
        requires
            is_timestamp(value as int),
        ensures
            expiration == DBExpiration::at(value),
            expiration.0.secs() == value,
            expiration.0.nanos() == 0,
    {
        DBExpiration::from(DBDateTime::new(DateTimeParts::from_timestamp_opt(value, 0).unwrap()))
    }

    /// Takes a stored UNIX seconds timestamp that came as an unsigned number. One of
    /// `2^63` or more stands for the negative number with the same bits.
    pub fn visit_u64(value: u64) -> (expiration: DBExpiration)
        requires
            is_timestamp(signed(value)),
        ensures
            expiration == DBExpiration::at(signed(value) as i64),
            expiration.0.secs() == signed(value),
            expiration.0.nanos() == 0,
    {
        proof {
            lemma_signed(value);
        }
        DBExpiration::visit_i64(value as i64)
    }
}

/// The number whose two's complement has the bits of an unsigned number.
pub open spec fn signed(value: u64) -> int {
    if value <= i64::MAX {
        value as int
    } else {
        value - 0x1_0000_0000_0000_0000
    }
}

proof fn lemma_signed(value: u64)
    ensures
        value as i64 == signed(value),
{
    assert(value <= 0x7fff_ffff_ffff_ffffu64 ==> value as i64 == value) by (bit_vector);
    assert(value > 0x7fff_ffff_ffff_ffffu64 ==> value as i64 == value
        - 0x1_0000_0000_0000_0000int) by (bit_vector);
}

impl core::ops::Deref for DBExpiration {
    type Target = DateTimeParts;

    fn deref(&self) -> (target: &DateTimeParts)
        ensures
            *target == self.0,
    {
        &self.0
    }
}

impl From<DBDateTime> for DBExpiration {
    fn from(v: DBDateTime) -> (r: Self)
        ensures
            r.0.secs() == v.0.secs(),
            r.0.nanos() == 0,
    {
        DBExpiration(v.0.with_nanosecond(0).unwrap())
    }
}

impl FromSpecImpl<DBDateTime> for DBExpiration {
    open spec fn obeys_from_spec() -> bool {
        true
    }

    open spec fn from_spec(v: DBDateTime) -> DBExpiration {
        DBExpiration::of(v)
    }
}

impl From<DBExpiration> for DBDateTime {
    fn from(v: DBExpiration) -> (r: Self)
        ensures
            r.0 == v.0,
    {
        DBDateTime::new(v.0)
    }
}

impl FromSpecImpl<DBExpiration> for DBDateTime {
    open spec fn obeys_from_spec() -> bool {
        true
    }

    open spec fn from_spec(v: DBExpiration) -> DBDateTime {
        DBDateTime(v.0)
    }
}

impl Default for DBExpiration {
    fn default() -> (r: Self)
        ensures
            exists|now: DBDateTime|
                #[trigger] call_ensures(DBDateTime::now, (), now) && now.is_clock_reading() && r
                    == DBExpiration::of(now),
            0 <= r.0.secs() <= MAX_TIMESTAMP,
            r.0.nanos() == 0,
    {
        let now = DBDateTime::now();
        DBExpiration::from(now)
    }
}

/// An expiration that is stored and read back is the same up to its second, and the
/// very same if it was made from a date and time or read from the database.
pub proof fn law_stored_expiration_reads_back(expiration: DBExpiration)
    ensures
        DBExpiration::at(expiration.0.secs() as i64) == DBExpiration(
            expiration.0.start_of_second(),
        ),
        expiration.0.nanos() == 0 ==> DBExpiration::at(expiration.0.secs() as i64) == expiration,
{
}

/// A stored timestamp that is read and stored again is the same.
pub proof fn law_stored_timestamp_is_kept(timestamp: i64)
    ensures
        DBExpiration::at(timestamp).0.secs() == timestamp,
        DBExpiration::at(timestamp).0.nanos() == 0,
{
}

/// An expiration made from a date and time lies in the same second and not after it,
/// so it has expired at that date and time.
pub proof fn law_expiration_is_not_after_its_date(date_time: DBDateTime)
    ensures
        DBExpiration::of(date_time).0.secs() == date_time.0.secs(),
        DBExpiration::of(date_time).0.nanos() == 0,
        DBExpiration::of(date_time).0.not_after(date_time.0),
{
}

/// To make an expiration into a date and time and back cuts it to its second, and
/// changes nothing where it has no nanoseconds.
pub proof fn law_conversion_goes_back(expiration: DBExpiration)
    ensures
        DBExpiration::of(DBDateTime(expiration.0)).0.secs() == expiration.0.secs(),
        DBExpiration::of(DBDateTime(expiration.0)).0.nanos() == 0,
        expiration.0.nanos() == 0 ==> DBExpiration::of(DBDateTime(expiration.0)) == expiration,
{
}

/// What has expired stays expired.
pub proof fn law_expired_stays_expired(
    expiration: DBExpiration,
    now: DBDateTime,
    later: DBDateTime,
)
    requires
        expiration.0.not_after(now.0),
        now.0.not_after(later.0),
    ensures
        expiration.0.not_after(later.0),
{
}

/// The order of dates is the order of time: an earlier second comes first, and within
/// one second the fewer nanoseconds do.
pub proof fn law_order_is_that_of_time(a: DateTimeParts, b: DateTimeParts)
    ensures
        a.secs() < b.secs() ==> a.not_after(b) && !b.not_after(a),
        a.secs() == b.secs() ==> (a.not_after(b) <==> a.nanos() <= b.nanos()),
{
}

/// Of two dates and times one is not after the other, and both only if they are the
/// same.
pub proof fn law_dates_are_ordered(a: DateTimeParts, b: DateTimeParts)
    ensures
        a.not_after(b) || b.not_after(a),
        a.not_after(b) && b.not_after(a) ==> a == b,
{
}

} // verus!
