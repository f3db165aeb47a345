use vstd::prelude::*;

verus! {

/// Which parts of the window are shown.
#[derive(Clone, Copy, Debug, PartialEq, Eq, Structural, Default)]
pub struct Visible {
    pub timer: bool,
    pub menu: bool,
    pub past_log: bool,
}

impl Visible {
    /// Only the timer is shown.
    pub fn new() -> (r: Visible)
        ensures
            r.timer,
            !r.menu,
            !r.past_log,
    {
        Visible { timer: true, menu: false, past_log: false }
    }
}

/// Splits a number of seconds into hours, minutes of the hour and seconds of
/// the minute.
pub fn split_hms(secs: i64) -> (r: (i64, i64, i64))
    requires
        secs >= 0,
    ensures
        r.0 * 3600 + r.1 * 60 + r.2 == secs,
        0 <= r.1 < 60,
        0 <= r.2 < 60,
        r.0 >= 0,
{
    let h = secs / 3600;
    let m = (secs % 3600) / 60;
    let s = secs % 60;
    assert(secs == h * 3600 + (secs % 3600)) by (nonlinear_arith)
        requires
            h == secs / 3600,
            secs >= 0,
    ;
    assert(secs % 3600 == m * 60 + s) by (nonlinear_arith)
        requires
            m == (secs % 3600) / 60,
            s == secs % 60,
            secs >= 0,
    ;
    (h, m, s)
}

} // verus!
