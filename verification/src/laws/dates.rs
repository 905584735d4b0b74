//! Laws of dates, times and expirations.
use crate::dates::DBDateTime;
use crate::dates::DBExpiration;
use crate::dates::DateTimeParts;
use vstd::prelude::*;

verus! {

/// There is a date and time exactly for the seconds from the year -262143 to the year
/// 262142 and for less than a second of nanoseconds, or less than two at the end of a
/// minute; and what it was made from can be read back from it.
pub proof fn law_date_time_reads_back(
    secs: i64,
    nsecs: u32,
    made: Option<DateTimeParts>,
    read_secs: i64,
    read_nanos: u32,
)
    requires
        call_ensures(DateTimeParts::from_timestamp_opt, (secs, nsecs), made),
        made matches Some(d) ==> call_ensures(DateTimeParts::timestamp, (&d,), read_secs)
            && call_ensures(DateTimeParts::nanosecond, (&d,), read_nanos),
    ensures
        made is Some <==> {
            &&& -8_334_601_228_800 <= secs <= 8_210_266_876_799
            &&& nsecs < 1_000_000_000 || (nsecs < 2_000_000_000 && secs as int % 60 == 59)
        },
        made is Some ==> read_secs == secs && read_nanos == nsecs,
{
}

/// Other nanoseconds leave the second alone; those of two seconds or more are refused.
pub proof fn law_nanoseconds_are_replaced(
    date_time: DateTimeParts,
    nano: u32,
    changed: Option<DateTimeParts>,
    secs: i64,
    changed_secs: i64,
    changed_nanos: u32,
)
    requires
        call_ensures(DateTimeParts::with_nanosecond, (&date_time, nano), changed),
        call_ensures(DateTimeParts::timestamp, (&date_time,), secs),
        changed matches Some(d) ==> call_ensures(DateTimeParts::timestamp, (&d,), changed_secs)
            && call_ensures(DateTimeParts::nanosecond, (&d,), changed_nanos),
    ensures
        changed is Some <==> nano < 2_000_000_000,
        changed is Some ==> changed_secs == secs && changed_nanos == nano,
{
}

/// One date and time is not after another exactly if its second is earlier, or the same
/// with no more nanoseconds.
pub proof fn law_comparison_goes_by_time(
    a: DateTimeParts,
    b: DateTimeParts,
    a_secs: i64,
    a_nanos: u32,
    b_secs: i64,
    b_nanos: u32,
    not_after: bool,
)
    requires
        call_ensures(DateTimeParts::timestamp, (&a,), a_secs),
        call_ensures(DateTimeParts::nanosecond, (&a,), a_nanos),
        call_ensures(DateTimeParts::timestamp, (&b,), b_secs),
        call_ensures(DateTimeParts::nanosecond, (&b,), b_nanos),
        call_ensures(DateTimeParts::is_not_after, (&a, &b), not_after),
    ensures
        a_secs < b_secs ==> not_after,
        a_secs > b_secs ==> !not_after,
        a_secs == b_secs ==> (not_after <==> a_nanos <= b_nanos),
{
}

/// An expiration has expired at a date and time exactly if it is not later.
pub proof fn law_expired_when_the_time_has_come(
    expiration: DBExpiration,
    now: DBDateTime,
    secs: i64,
    nanos: u32,
    now_secs: i64,
    now_nanos: u32,
    expired: bool,
)
    requires
        call_ensures(DateTimeParts::timestamp, (&expiration.0,), secs),
        call_ensures(DateTimeParts::nanosecond, (&expiration.0,), nanos),
        call_ensures(DateTimeParts::timestamp, (&now.0,), now_secs),
        call_ensures(DateTimeParts::nanosecond, (&now.0,), now_nanos),
        call_ensures(DBExpiration::is_expired_at, (&expiration, &now), expired),
    ensures
        secs < now_secs ==> expired,
        secs > now_secs ==> !expired,
        secs == now_secs ==> (expired <==> nanos <= now_nanos),
{
}

/// Whether an expiration has expired is told by a reading of the clock, as
/// `is_expired_at` would tell it.
pub proof fn law_expired_goes_by_the_clock(expiration: DBExpiration, expired: bool)
    requires
        call_ensures(DBExpiration::is_expired, (&expiration,), expired),
    ensures
        exists|now: DBDateTime| #[trigger]
            call_ensures(DBDateTime::now, (), now) && (forall|answer: bool| #[trigger]
                call_ensures(DBExpiration::is_expired_at, (&expiration, &now), answer) ==> answer
                    == expired),
{
    let now = choose|now: DBDateTime| #[trigger]
        call_ensures(DBDateTime::now, (), now) && now.is_clock_reading() && expired
            == expiration.0.not_after(now.0);
    assert(call_ensures(DBDateTime::now, (), now));
}

/// The clock shows no time before the UNIX epoch and no leap second.
pub proof fn law_clock_runs_from_the_epoch(now: DBDateTime, secs: i64, nanos: u32)
    requires
        call_ensures(DBDateTime::now, (), now),
        call_ensures(DateTimeParts::timestamp, (&now.0,), secs),
        call_ensures(DateTimeParts::nanosecond, (&now.0,), nanos),
    ensures
        0 <= secs <= 8_210_266_876_799,
        nanos < 1_000_000_000,
{
}

/// What is stored of an expiration is its second.
pub proof fn law_second_is_stored(expiration: DBExpiration, secs: i64, stored: i64)
    requires
        call_ensures(DateTimeParts::timestamp, (&expiration.0,), secs),
        call_ensures(DBExpiration::serialize, (&expiration,), stored),
    ensures
        stored == secs,
{
}

/// A stored timestamp is read as the start of that second, and stored as the same
/// number again.
pub proof fn law_stored_timestamp_survives(
    value: i64,
    expiration: DBExpiration,
    stored: i64,
    nanos: u32,
)
    requires
        -8_334_601_228_800 <= value <= 8_210_266_876_799,
        call_ensures(DBExpiration::visit_i64, (value,), expiration),
        call_ensures(DBExpiration::serialize, (&expiration,), stored),
        call_ensures(DateTimeParts::nanosecond, (&expiration.0,), nanos),
    ensures
        stored == value,
        nanos == 0,
{
}

/// A timestamp that came unsigned is read as the number it is, or, from `2^63` on, as
/// that number less `2^64`.
pub proof fn law_unsigned_timestamp_survives(
    value: u64,
    expiration: DBExpiration,
    stored: i64,
    nanos: u32,
)
    requires
        value <= 8_210_266_876_799 || 0x1_0000_0000_0000_0000 - value <= 8_334_601_228_800,
        call_ensures(DBExpiration::visit_u64, (value,), expiration),
        call_ensures(DBExpiration::serialize, (&expiration,), stored),
        call_ensures(DateTimeParts::nanosecond, (&expiration.0,), nanos),
    ensures
        value < 0x8000_0000_0000_0000 ==> stored == value,
        value >= 0x8000_0000_0000_0000 ==> stored == value - 0x1_0000_0000_0000_0000,
        nanos == 0,
{
}

/// A date and time becomes the expiration at the start of its second.
pub proof fn law_date_becomes_its_second(
    date_time: DBDateTime,
    expiration: DBExpiration,
    secs: i64,
    expiration_secs: i64,
    expiration_nanos: u32,
)
    requires
        call_ensures(<DBExpiration as From<DBDateTime>>::from, (date_time,), expiration),
        call_ensures(DateTimeParts::timestamp, (&date_time.0,), secs),
        call_ensures(DateTimeParts::timestamp, (&expiration.0,), expiration_secs),
        call_ensures(DateTimeParts::nanosecond, (&expiration.0,), expiration_nanos),
    ensures
        expiration_secs == secs,
        expiration_nanos == 0,
{
}

/// An expiration becomes the date and time that it holds, which `deref` shows too.
pub proof fn law_expiration_becomes_its_date(
    expiration: DBExpiration,
    date_time: DBDateTime,
    target: &DateTimeParts,
    made: DBDateTime,
)
    requires
        call_ensures(<DBDateTime as From<DBExpiration>>::from, (expiration,), date_time),
        call_ensures(<DBExpiration as core::ops::Deref>::deref, (&expiration,), target),
        call_ensures(DBDateTime::new, (expiration.0,), made),
    ensures
        date_time.0 == expiration.0,
        *target == expiration.0,
        made.0 == expiration.0,
{
}

/// The default expiration is the one of a reading of the clock.
pub proof fn law_default_is_now(expiration: DBExpiration)
    requires
        call_ensures(<DBExpiration as Default>::default, (), expiration),
    ensures
        exists|now: DBDateTime| #[trigger]
            call_ensures(DBDateTime::now, (), now) && expiration.0.secs() == now.0.secs()
                && expiration.0.nanos() == 0,
{
    let now = choose|now: DBDateTime| #[trigger]
        call_ensures(DBDateTime::now, (), now) && now.is_clock_reading() && expiration
            == DBExpiration::of(now);
    crate::dates::law_expiration_is_not_after_its_date(now);
    assert(call_ensures(DBDateTime::now, (), now));
}

/// Every timestamp from the year -262143 to the year 262142 can be taken.
pub proof fn law_every_timestamp_can_be_taken(value: i64, unsigned: u64)
    ensures
        -8_334_601_228_800 <= value <= 8_210_266_876_799 ==> call_requires(
            DBExpiration::visit_i64,
            (value,),
        ),
        unsigned <= 8_210_266_876_799 || 0x1_0000_0000_0000_0000 - unsigned <= 8_334_601_228_800
            ==> call_requires(DBExpiration::visit_u64, (unsigned,)),
{
}

} // verus!
