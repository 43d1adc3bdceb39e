//! The notification schedule: times of day, the check of a submitted
//! schedule, and whether a notification is shown at a given moment.
use vstd::prelude::*;

use crate::models::{day_at, day_index, day_name, days_distinct, DayKey, Schedule, ScheduleConfig, ScheduleInput};
use crate::text::{chars_of, str_cat, str_is};

verus! {

// ---------------------------------------------------------------------
// Times of day
// ---------------------------------------------------------------------
/// The pieces of `s` between `sep` characters (`str::split`).
pub open spec fn split_char(s: Seq<char>, sep: char) -> Seq<Seq<char>>
    decreases s.len(),
{
    if s.len() == 0 {
        seq![Seq::<char>::empty()]
    } else {
        let p = split_char(s.drop_last(), sep);
        if s.last() == sep {
            p.push(Seq::<char>::empty())
        } else {
            p.update(p.len() - 1, p.last().push(s.last()))
        }
    }
}

pub proof fn lemma_split_nonempty(s: Seq<char>, sep: char)
    ensures
        split_char(s, sep).len() >= 1,
    decreases s.len(),
{
    if s.len() > 0 {
        lemma_split_nonempty(s.drop_last(), sep);
    }
}

pub open spec fn is_digit(c: char) -> bool {
    '0' <= c <= '9'
}

/// The number that a string of decimal digits writes.
pub open spec fn digits_value(s: Seq<char>) -> nat
    decreases s.len(),
{
    if s.len() == 0 {
        0
    } else {
        digits_value(s.drop_last()) * 10 + (s.last() as nat - '0' as nat) as nat
    }
}

/// `u16::from_str`: an optional `+`, then decimal digits whose value fits.
pub open spec fn parse_u16(s: Seq<char>) -> Option<nat> {
    parse_digits(
        if s.len() > 0 && s[0] == '+' {
            s.drop_first()
        } else {
            s
        },
    )
}

/// The value of a non-empty string of decimal digits that fits in `u16`.
pub open spec fn parse_digits(d: Seq<char>) -> Option<nat> {
    if d.len() > 0 && (forall|i: int| 0 <= i < d.len() ==> is_digit(#[trigger] d[i]))
        && digits_value(d) <= 65535 {
        Some(digits_value(d))
    } else {
        None
    }
}

/// `time_to_minutes`: minutes after midnight of an `hours:minutes` text,
/// hours at most 23 and minutes at most 59.
pub open spec fn spec_time_to_minutes(value: Seq<char>) -> Option<nat> {
    let parts = split_char(value, ':');
    if parts.len() != 2 {
        None
    } else {
        match (parse_u16(parts[0]), parse_u16(parts[1])) {
            (Some(h), Some(m)) => if h <= 23 && m <= 59 {
                Some(h * 60 + m)
            } else {
                None
            },
            _ => None,
        }
    }
}

/// `u16::from_str` on characters.
fn parse_u16_exec(s: &[char]) -> (r: Option<u16>)
    ensures
        match r {
            Some(v) => parse_u16(s@) == Some(v as nat),
            None => parse_u16(s@) is None,
        },
{
    let ghost d = if s@.len() > 0 && s@[0] == '+' {
        s@.drop_first()
    } else {
        s@
    };
    let start: usize = if s.len() > 0 && s[0] == '+' {
        1
    } else {
        0
    };
    assert(d == s@.skip(start as int));
    if start >= s.len() {
        return None;
    }
    let mut value: u32 = 0;
    let mut i = start;
    while i < s.len()
        invariant
            start <= i <= s@.len(),
            d == s@.skip(start as int),
            d == (if s@.len() > 0 && s@[0] == '+' {
                s@.drop_first()
            } else {
                s@
            }),
            forall|j: int| 0 <= j < i - start ==> is_digit(#[trigger] d[j]),
            value == digits_value(d.take(i - start)),
            value <= 65535,
        decreases s@.len() - i,
    {
        let c = s[i];
        assert(d[i - start] == s@[i as int]);
        if !('0' <= c && c <= '9') {
            assert(!is_digit(d[i - start]));
            return None;
        }
        assert(is_digit(d[i - start]));
        let digit = (c as u32) - ('0' as u32);
        assert(d.take(i + 1 - start).drop_last() == d.take(i - start));
        assert(d.take(i + 1 - start).last() == c);
        let next = value * 10 + digit;
        if next > 65535 {
            proof {
                lemma_digits_grow(d, (i + 1 - start) as int);
            }
            return None;
        }
        value = next;
        i = i + 1;
    }
    assert(d.take(s@.len() - start) == d);
    Some(value as u16)
}

/// Once a prefix of digits is too large, so is every longer prefix.
proof fn lemma_digits_grow(d: Seq<char>, k: int)
    requires
        0 <= k <= d.len(),
        digits_value(d.take(k)) > 65535,
        forall|i: int| 0 <= i < d.len() ==> is_digit(#[trigger] d[i]) || i >= k,
    ensures
        (forall|i: int| 0 <= i < d.len() ==> is_digit(#[trigger] d[i])) ==> digits_value(d)
            > 65535,
    decreases d.len() - k,
{
    if k < d.len() {
        if forall|i: int| 0 <= i < d.len() ==> is_digit(#[trigger] d[i]) {
            assert(d.take(k + 1).drop_last() == d.take(k));
            assert(is_digit(d[k]));
            lemma_digits_grow(d, k + 1);
        }
    } else {
        assert(d.take(k) == d);
    }
}

/// The pieces of the text between `:` characters.
fn split_colon(v: &[char]) -> (r: Vec<Vec<char>>)
    ensures
        r.deep_view() == split_char(v@, ':'),
{
    let mut out: Vec<Vec<char>> = Vec::new();
    let mut cur: Vec<char> = Vec::new();
    let mut i: usize = 0;
    proof {
        assert(v@.take(0) =~= Seq::<char>::empty());
        assert(split_char(v@.take(0), ':').drop_last() =~= Seq::<Seq<char>>::empty());
    }
    while i < v.len()
        invariant
            i <= v@.len(),
            split_char(v@.take(i as int), ':').len() >= 1,
            cur@ == split_char(v@.take(i as int), ':').last(),
            out.deep_view() == split_char(v@.take(i as int), ':').drop_last(),
        decreases v@.len() - i,
    {
        let ghost before = v@.take(i as int);
        let ghost after = v@.take(i + 1);
        assert(after.drop_last() == before);
        assert(after.last() == v@[i as int]);
        if v[i] == ':' {
            let ghost prev = out.deep_view();
            let done = cur;
            cur = Vec::new();
            out.push(done);
            proof {
                assert(done.deep_view() =~= done@);
                assert(out.deep_view() =~~= prev.push(done@));
                assert(split_char(after, ':') == split_char(before, ':').push(Seq::<char>::empty()));
                assert(split_char(before, ':').drop_last().push(done@) =~= split_char(before, ':'));
                assert(cur@ =~= Seq::<char>::empty());
            }
        } else {
            proof {
                let p = split_char(before, ':');
                assert(split_char(after, ':') == p.update(p.len() - 1, p.last().push(v@[i as int])));
                assert(split_char(after, ':').drop_last() =~= p.drop_last());
            }
            cur.push(v[i]);
        }
        i = i + 1;
    }
    assert(v@.take(v@.len() as int) == v@);
    let ghost prev = out.deep_view();
    let last = cur;
    out.push(last);
    proof {
        assert(last.deep_view() =~= last@);
        assert(out.deep_view() =~~= prev.push(last@));
        assert(split_char(v@, ':').drop_last().push(last@) =~= split_char(v@, ':'));
    }
    out
}

/// Minutes after midnight of an `hours:minutes` text.
pub fn time_to_minutes(value: &str) -> (r: Option<u16>)
    ensures
        match r {
            Some(m) => spec_time_to_minutes(value@) == Some(m as nat),
            None => spec_time_to_minutes(value@) is None,
        },
{
    let parts = split_colon(chars_of(value).as_slice());
    if parts.len() != 2 {
        return None;
    }
    assert(parts.deep_view()[0] == parts@[0]@);
    assert(parts.deep_view()[1] == parts@[1]@);
    let hour = match parse_u16_exec(parts[0].as_slice()) {
        Some(h) => h,
        None => return None,
    };
    let minute = match parse_u16_exec(parts[1].as_slice()) {
        Some(m) => m,
        None => return None,
    };
    if hour > 23 || minute > 59 {
        return None;
    }
    Some(hour * 60 + minute)
}

// ---------------------------------------------------------------------
// Schedules
// ---------------------------------------------------------------------
/// The configuration of a day: the first entry for it.
pub open spec fn day_entry(days: Seq<(DayKey, ScheduleConfig)>, day: DayKey, k: int) -> Option<
    ScheduleConfig,
>
    decreases days.len() - k,
{
    if k < 0 || k >= days.len() {
        None
    } else if days[k].0 == day {
        Some(days[k].1)
    } else {
        day_entry(days, day, k + 1)
    }
}

/// The entry for a day.
pub fn day_config<'a>(days: &'a Vec<(DayKey, ScheduleConfig)>, day: DayKey) -> (r: Option<
    &'a ScheduleConfig,
>)
    ensures
        match r {
            Some(c) => day_entry(days@, day, 0) == Some(*c),
            None => day_entry(days@, day, 0) is None,
        },
{
    let mut k: usize = 0;
    while k < days.len()
        invariant
            k <= days@.len(),
            day_entry(days@, day, 0) == day_entry(days@, day, k as int),
        decreases days@.len() - k,
    {
        if days[k].0 == day {
            return Some(&days[k].1);
        }
        k = k + 1;
    }
    None
}

/// The verdict on the days from index `i` of the week on.
pub open spec fn check_days(days: Seq<(DayKey, ScheduleConfig)>, i: int) -> Result<(), Seq<char>>
    decreases 7 - i,
{
    if i < 0 || i >= 7 {
        Ok(())
    } else {
        let day = day_at(i);
        match day_entry(days, day, 0) {
            None => Err("Schedule is missing "@ + day_name(day)),
            Some(c) => match spec_time_to_minutes(c.start_time@) {
                None => Err(day_name(day) + " start time is invalid"@),
                Some(start) => match spec_time_to_minutes(c.end_time@) {
                    None => Err(day_name(day) + " end time is invalid"@),
                    Some(end) => if c.enabled && end <= start {
                        Err(day_name(day) + " end time must be after start time"@)
                    } else {
                        check_days(days, i + 1)
                    },
                },
            },
        }
    }
}

/// `validate_schedule`: every day is present with valid times, and an
/// enabled day ends after it starts; days are checked Monday first.
pub fn validate_schedule(input: &ScheduleInput) -> (r: Result<(), String>)
    ensures
        crate::modules::unit_result(r) == check_days(input.days@, 0),
{
    let all = DayKey::all();
    let mut i: usize = 0;
    while i < 7
        invariant
            i <= 7,
            all@.len() == 7,
            forall|j: int| 0 <= j < 7 ==> #[trigger] all@[j] == day_at(j),
            check_days(input.days@, 0) == check_days(input.days@, i as int),
        decreases 7 - i,
    {
        let day = all[i];
        assert(day == day_at(i as int));
        let config = match day_config(&input.days, day) {
            Some(c) => c,
            None => return Err(str_cat("Schedule is missing ", day.as_str())),
        };
        let start = match time_to_minutes(config.start_time.as_str()) {
            Some(s) => s,
            None => return Err(str_cat(day.as_str(), " start time is invalid")),
        };
        let end = match time_to_minutes(config.end_time.as_str()) {
            Some(e) => e,
            None => return Err(str_cat(day.as_str(), " end time is invalid")),
        };
        if config.enabled && end <= start {
            return Err(str_cat(day.as_str(), " end time must be after start time"));
        }
        i = i + 1;
    }
    Ok(())
}

/// `default_schedule_config`: weekdays on, the weekend off, nine to five.
pub fn default_schedule_config(day_key: DayKey) -> (r: ScheduleConfig)
    ensures
        r.enabled == !(day_key == DayKey::Saturday || day_key == DayKey::Sunday),
        r.start_time@ == "09:00"@,
        r.end_time@ == "17:00"@,
{
    ScheduleConfig {
        enabled: !(day_key == DayKey::Saturday || day_key == DayKey::Sunday),
        start_time: String::from_str("09:00"),
        end_time: String::from_str("17:00"),
    }
}

/// The day that a stored day name names.
pub fn parse_day_key(value: &str) -> (r: Result<DayKey, String>)
    ensures
        match r {
            Ok(d) => day_name(d) == value@,
            Err(e) => e@ == "Invalid day key: "@ + value@ && forall|d: DayKey| day_name(d) != value@,
        },
{
    if str_is(value, "monday") {
        Ok(DayKey::Monday)
    } else if str_is(value, "tuesday") {
        Ok(DayKey::Tuesday)
    } else if str_is(value, "wednesday") {
        Ok(DayKey::Wednesday)
    } else if str_is(value, "thursday") {
        Ok(DayKey::Thursday)
    } else if str_is(value, "friday") {
        Ok(DayKey::Friday)
    } else if str_is(value, "saturday") {
        Ok(DayKey::Saturday)
    } else if str_is(value, "sunday") {
        Ok(DayKey::Sunday)
    } else {
        Err(str_cat("Invalid day key: ", value))
    }
}

/// The schedule that stored rows give: the days in week order, each the
/// last stored row for it or else its default.
pub open spec fn stored_day(rows: Seq<(DayKey, ScheduleConfig)>, day: DayKey, k: int) -> Option<
    ScheduleConfig,
>
    decreases k,
{
    if k <= 0 || k > rows.len() {
        None
    } else if rows[k - 1].0 == day {
        Some(rows[k - 1].1)
    } else {
        stored_day(rows, day, k - 1)
    }
}

/// `get_schedule`, once the rows are read: whether the schedule is on, and
/// each day from its last stored row, or its default.
pub fn schedule_from_rows(active: Option<i64>, rows: &Vec<(DayKey, ScheduleConfig)>) -> (r:
    Schedule)
    ensures
        r.schedule_enabled == (match active {
            Some(a) => a != 0,
            None => false,
        }),
        r.days@.len() == 7,
        days_distinct(r.days@),
        forall|i: int|
            #![trigger r.days@[i]]
            0 <= i < 7 ==> r.days@[i].0 == day_at(i) && match stored_day(
                rows@,
                day_at(i),
                rows@.len() as int,
            ) {
                Some(c) => r.days@[i].1 == c,
                None => r.days@[i].1.enabled == !(day_at(i) == DayKey::Saturday || day_at(i)
                    == DayKey::Sunday) && r.days@[i].1.start_time@ == "09:00"@
                    && r.days@[i].1.end_time@ == "17:00"@,
            },
{
    let all = DayKey::all();
    let mut days: Vec<(DayKey, ScheduleConfig)> = Vec::new();
    let mut i: usize = 0;
    while i < 7
        invariant
            i <= 7,
            all@.len() == 7,
            forall|j: int| 0 <= j < 7 ==> #[trigger] all@[j] == day_at(j),
            days@.len() == i,
            forall|j: int|
                #![trigger days@[j]]
                0 <= j < i ==> days@[j].0 == day_at(j) && match stored_day(
                    rows@,
                    day_at(j),
                    rows@.len() as int,
                ) {
                    Some(c) => days@[j].1 == c,
                    None => days@[j].1.enabled == !(day_at(j) == DayKey::Saturday || day_at(j)
                        == DayKey::Sunday) && days@[j].1.start_time@ == "09:00"@
                        && days@[j].1.end_time@ == "17:00"@,
                },
        decreases 7 - i,
    {
        let day = all[i];
        let config = match last_row_for(rows, day) {
            Some(k) => rows[k].1.clone_config(),
            None => default_schedule_config(day),
        };
        let ghost prev = days@;
        days.push((day, config));
        assert(days@ == prev.push((day, config)));
        assert(day == day_at(i as int));
        i = i + 1;
    }
    assert(forall|a: int, b: int| 0 <= a < b < 7 ==> #[trigger] day_at(a) != #[trigger] day_at(b));
    assert(days_distinct(days@)) by {
        assert forall|a: int, b: int| 0 <= a < b < days@.len() implies #[trigger] days@[a].0
            != #[trigger] days@[b].0 by {
            assert(day_at(a) != day_at(b));
        }
    }
    Schedule {
        schedule_enabled: match active {
            Some(a) => a != 0,
            None => false,
        },
        days,
    }
}

/// The index of the last row for `day`.
fn last_row_for(rows: &Vec<(DayKey, ScheduleConfig)>, day: DayKey) -> (r: Option<usize>)
    ensures
        match r {
            Some(k) => k < rows@.len() && stored_day(rows@, day, rows@.len() as int) == Some(
                rows@[k as int].1,
            ),
            None => stored_day(rows@, day, rows@.len() as int) is None,
        },
{
    let mut k: usize = rows.len();
    while k > 0
        invariant
            k <= rows@.len(),
            stored_day(rows@, day, rows@.len() as int) == stored_day(rows@, day, k as int),
        decreases k,
    {
        if rows[k - 1].0 == day {
            return Some(k - 1);
        }
        k = k - 1;
    }
    None
}

impl ScheduleConfig {
    /// A copy of the configuration.
    pub fn clone_config(&self) -> (r: ScheduleConfig)
        ensures
            r == *self,
    {
        ScheduleConfig {
            enabled: self.enabled,
            start_time: self.start_time.clone(),
            end_time: self.end_time.clone(),
        }
    }
}

/// `should_show_notification`, once the schedule is read and the local time
/// is known: with the schedule off a notification is always shown;
/// otherwise only on an enabled day between its start (included) and its
/// end (excluded).
pub open spec fn spec_should_show(schedule: Schedule, day: DayKey, current: nat) -> Result<
    bool,
    Seq<char>,
> {
    if !schedule.schedule_enabled {
        Ok(true)
    } else {
        match day_entry(schedule.days@, day, 0) {
            None => Ok(false),
            Some(c) => if !c.enabled {
                Ok(false)
            } else {
                match spec_time_to_minutes(c.start_time@) {
                    None => Err("Invalid start time for "@ + day_name(day)),
                    Some(start) => match spec_time_to_minutes(c.end_time@) {
                        None => Err("Invalid end time for "@ + day_name(day)),
                        Some(end) => Ok(current >= start && current < end),
                    },
                }
            },
        }
    }
}

/// `should_show_notification` at `hour:minute` on `day`.
pub fn should_show(schedule: &Schedule, day: DayKey, hour: u32, minute: u32) -> (r: Result<
    bool,
    String,
>)
    requires
        hour < 24,
        minute < 60,
    ensures
        match r {
            Ok(b) => spec_should_show(*schedule, day, (hour * 60 + minute) as nat) == Ok::<
                bool,
                Seq<char>,
            >(b),
            Err(e) => spec_should_show(*schedule, day, (hour * 60 + minute) as nat) == Err::<
                bool,
                Seq<char>,
            >(e@),
        },
{
    if !schedule.schedule_enabled {
        return Ok(true);
    }
    let config = match day_config(&schedule.days, day) {
        Some(c) => c,
        None => return Ok(false),
    };
    if !config.enabled {
        return Ok(false);
    }
    let current = (hour * 60 + minute) as u16;
    let start = match time_to_minutes(config.start_time.as_str()) {
        Some(s) => s,
        None => return Err(str_cat("Invalid start time for ", day.as_str())),
    };
    let end = match time_to_minutes(config.end_time.as_str()) {
        Some(e) => e,
        None => return Err(str_cat("Invalid end time for ", day.as_str())),
    };
    Ok(current >= start && current < end)
}

/// `day_of_week`: the day at a position of the week, Monday being 0.
pub fn day_of_week(days_from_monday: u32) -> (r: DayKey)
    requires
        days_from_monday < 7,
    ensures
        r == day_at(days_from_monday as int),
        day_index(r) == days_from_monday,
{
    if days_from_monday == 0 {
        DayKey::Monday
    } else if days_from_monday == 1 {
        DayKey::Tuesday
    } else if days_from_monday == 2 {
        DayKey::Wednesday
    } else if days_from_monday == 3 {
        DayKey::Thursday
    } else if days_from_monday == 4 {
        DayKey::Friday
    } else if days_from_monday == 5 {
        DayKey::Saturday
    } else {
        DayKey::Sunday
    }
}

} // verus!
