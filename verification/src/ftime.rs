//! Frame timestamps: six decoded fields in hour, minute, second, day,
//! month, two-digit-year order, validated the way a calendar parse accepts
//! them, and the daily analysis-window arithmetic on plain second ticks.

use vstd::prelude::*;

use crate::codec::tok_i32;

verus! {

/// A calendar timestamp carried by a frame: two-digit year.
#[derive(Clone, Copy, PartialEq, Eq, Structural, Debug)]
pub struct FrameTime {
    pub hour: u32,
    pub minute: u32,
    pub second: u32,
    pub day: u32,
    pub month: u32,
    pub year: u32,
}

/// The full year that a two-digit year denotes: 69 to 99 fall in the
/// 1900s, 0 to 68 in the 2000s.
pub open spec fn full_year(y2: int) -> int {
    if y2 >= 69 {
        1900 + y2
    } else {
        2000 + y2
    }
}

/// Days in a month of the denoted year; the years in reach are leap years
/// exactly when divisible by four.
pub open spec fn days_in_month(y2: int, month: int) -> int {
    if month == 1 || month == 3 || month == 5 || month == 7 || month == 8 || month == 10 || month
        == 12 {
        31
    } else if month == 2 {
        if y2 % 4 == 0 {
            29
        } else {
            28
        }
    } else {
        30
    }
}

/// Whether six field values form an acceptable timestamp: each field in
/// its calendar range, seconds admitting a leap second.
pub open spec fn fields_ok(h: int, mi: int, se: int, d: int, mo: int, y: int) -> bool {
    &&& 0 <= h <= 23
    &&& 0 <= mi <= 59
    &&& 0 <= se <= 60
    &&& 1 <= mo <= 12
    &&& 0 <= y <= 99
    &&& 1 <= d <= days_in_month(y, mo)
}

/// The timestamp of six field values, when they are acceptable.
pub open spec fn frame_time_of(h: int, mi: int, se: int, d: int, mo: int, y: int) -> Option<
    FrameTime,
> {
    if fields_ok(h, mi, se, d, mo, y) {
        Some(
            FrameTime {
                hour: h as u32,
                minute: mi as u32,
                second: se as u32,
                day: d as u32,
                month: mo as u32,
                year: y as u32,
            },
        )
    } else {
        None
    }
}

/// The timestamp carried in tokens `[from, from + 6)`: each token read as
/// base 16 with parse-or-zero, in hour, minute, second, day, month, year
/// order.
pub open spec fn frame_time_of_tokens(ts: Seq<Seq<char>>, from: int) -> Option<FrameTime> {
    frame_time_of(
        tok_i32(ts[from], 16),
        tok_i32(ts[from + 1], 16),
        tok_i32(ts[from + 2], 16),
        tok_i32(ts[from + 3], 16),
        tok_i32(ts[from + 4], 16),
        tok_i32(ts[from + 5], 16),
    )
}

impl FrameTime {
    /// Whether the fields are an acceptable calendar timestamp.
    pub open spec fn wf(self) -> bool {
        fields_ok(
            self.hour as int,
            self.minute as int,
            self.second as int,
            self.day as int,
            self.month as int,
            self.year as int,
        )
    }

    /// Build a timestamp from six decoded field values.
    pub fn from_fields(h: i32, mi: i32, se: i32, d: i32, mo: i32, y: i32) -> (r: Option<FrameTime>)
        ensures
            r == frame_time_of(h as int, mi as int, se as int, d as int, mo as int, y as int),
            r is Some ==> r.unwrap().wf(),
    {
        if 0 <= h && h <= 23 && 0 <= mi && mi <= 59 && 0 <= se && se <= 60 && 1 <= mo && mo <= 12
            && 0 <= y && y <= 99 {
            let dim: i32 = if mo == 1 || mo == 3 || mo == 5 || mo == 7 || mo == 8 || mo == 10 || mo
                == 12 {
                31
            } else if mo == 2 {
                if y % 4 == 0 {
                    29
                } else {
                    28
                }
            } else {
                30
            };
            if 1 <= d && d <= dim {
                Some(
                    FrameTime {
                        hour: h as u32,
                        minute: mi as u32,
                        second: se as u32,
                        day: d as u32,
                        month: mo as u32,
                        year: y as u32,
                    },
                )
            } else {
                None
            }
        } else {
            None
        }
    }

    /// Read the timestamp carried in tokens `[from, from + 6)`.
    pub fn from_tokens(data: &Vec<&str>, from: usize) -> (r: Option<FrameTime>)
        requires
            from + 6 <= data.len(),
        ensures
            r == frame_time_of_tokens(data.deep_view(), from as int),
            r is Some ==> r.unwrap().wf(),
    {
        let h = crate::nums::str_to_int(data[from], 16);
        let mi = crate::nums::str_to_int(data[from + 1], 16);
        let se = crate::nums::str_to_int(data[from + 2], 16);
        let d = crate::nums::str_to_int(data[from + 3], 16);
        let mo = crate::nums::str_to_int(data[from + 4], 16);
        let y = crate::nums::str_to_int(data[from + 5], 16);
        Self::from_fields(h, mi, se, d, mo, y)
    }
}

/// Euclidean remainder of `a` by 86400: the seconds of `a` past its
/// day boundary.
pub open spec fn day_offset(a: int) -> int {
    a - 86400 * (a / 86400) + if a % 86400 < 0 {
        86400int
    } else {
        0int
    }
}

/// Start of the daily analysis window that `now` falls in: the window
/// opens at five hours past the day boundary of `now - 5h`.
pub open spec fn window_start(now: int) -> int {
    let start = now - 18000;
    start - day_offset(start) + 18000
}

/// The daily analysis-window start for `now`, in ticks.
pub fn window_start_tick(now: i64) -> (r: i64)
    requires
        0 <= now,
    ensures
        r as int == window_start(now as int),
{
    let start: i64 = now - 18000;
    let rem: i64 = ((start % 86400) + 86400) % 86400;
    proof {
        assert(rem as int == day_offset(start as int));
    }
    start - rem + 18000
}

} // verus!
