//! Frame-rate statistics shown by the debug overlay.

use vstd::prelude::*;

verus! {

/// How many samples the running average is taken over.
pub const AVERAGE_WINDOW: usize = 10;

/// How long, in microseconds, the statistics stay unchanged between refreshes.
pub const REFRESH_MICROS: u64 = 100_000;

/// The sum of the samples in `s`.
pub open spec fn sum(s: Seq<u32>) -> int
    decreases s.len(),
{
    if s.len() == 0 {
        0
    } else {
        sum(s.drop_last()) + s.last()
    }
}

/// The text that the statistics render to.
pub uninterp spec fn fps_text_of(
    current: u32,
    average: u32,
    max: u32,
    min: u32,
    width: u32,
    height: u32,
) -> Seq<char>;

/// Relies on std's `format!`: the four counters right-aligned in four
/// columns, then the viewport size; the text depends on the values alone.
#[verifier::external_body]
fn fps_text(current: u32, average: u32, max: u32, min: u32, width: u32, height: u32) -> (r: String)
    ensures
        r@ == fps_text_of(current, average, max, min, width, height),
{
    format!(
        "FPS: {: >4} AVG: {: >4} MAX: {: >4} MIN: {: >4}\t{:?}",
        current,
        average,
        max,
        min,
        (width, height),
    )
}

/// Frame-rate statistics: the latest sample, the highest and lowest seen at
/// the refreshes, and the average of the samples taken at the last
/// `AVERAGE_WINDOW` refreshes before the latest one.
pub struct FpsStats {
    last_update: u64,
    current: u32,
    average: u32,
    max: u32,
    min: u32,
    avg_window: Vec<u32>,
    avg_cursor: usize,
    pub text: String,
}

impl FpsStats {
    pub closed spec fn wf(&self) -> bool {
        &&& self.avg_window@.len() == AVERAGE_WINDOW
        &&& self.avg_cursor <= AVERAGE_WINDOW
    }

    /// The time of the last refresh, in microseconds.
    pub closed spec fn last_update_spec(&self) -> u64 {
        self.last_update
    }

    pub closed spec fn current_spec(&self) -> u32 {
        self.current
    }

    pub closed spec fn average_spec(&self) -> u32 {
        self.average
    }

    pub closed spec fn max_spec(&self) -> u32 {
        self.max
    }

    pub closed spec fn min_spec(&self) -> u32 {
        self.min
    }

    /// The rendered statistics.
    pub closed spec fn shown(&self) -> Seq<char> {
        self.text@
    }

    /// The samples the average is taken over.
    pub closed spec fn window(&self) -> Seq<u32> {
        self.avg_window@
    }

    /// Where the next sample goes in the window.
    pub closed spec fn cursor(&self) -> nat {
        self.avg_cursor as nat
    }

    /// Statistics with no sample yet, last refreshed at time `now`.
    pub fn new(now: u64) -> (r: FpsStats)
        ensures
            r.wf(),
            r.last_update_spec() == now,
            r.current_spec() == 0 && r.average_spec() == 0,
            r.max_spec() == 0 && r.min_spec() == 0,
            r.window() == Seq::new(AVERAGE_WINDOW as nat, |i: int| 0u32),
            r.cursor() == 0,
            r.shown() == Seq::<char>::empty(),
    {
        let mut avg_window: Vec<u32> = Vec::new();
        let mut i: usize = 0;
        while i < AVERAGE_WINDOW
            invariant
                i <= AVERAGE_WINDOW,
                avg_window@ == Seq::new(i as nat, |j: int| 0u32),
            decreases AVERAGE_WINDOW - i,
        {
            avg_window.push(0);
            assert(avg_window@ =~= Seq::new((i + 1) as nat, |j: int| 0u32));
            i = i + 1;
        }
        FpsStats {
            last_update: now,
            current: 0,
            average: 0,
            max: 0,
            min: 0,
            avg_window,
            avg_cursor: 0,
            text: String::new(),
        }
    }

    /// Records the frame rate `fps` measured at time `now` (microseconds).
    /// The highest, lowest and average values and the text are refreshed
    /// when more than `REFRESH_MICROS` have passed since the last refresh;
    /// the average then takes in the samples of earlier refreshes, and
    /// `fps` joins the window, in place of the oldest sample.
    pub fn update(&mut self, fps: u32, now: u64, viewport: (u32, u32))
        requires
            old(self).wf(),
        ensures
            final(self).wf(),
            final(self).current_spec() == fps,
            ({
                let o = *old(self);
                let n = *final(self);
                if now > o.last_update_spec() && now - o.last_update_spec() > REFRESH_MICROS {
                    let cur = if o.cursor() >= AVERAGE_WINDOW {
                        0
                    } else {
                        o.cursor()
                    };
                    &&& n.last_update_spec() == now
                    &&& n.max_spec() == if fps > o.max_spec() {
                        fps
                    } else {
                        o.max_spec()
                    }
                    &&& n.min_spec() == if fps < o.min_spec() || o.min_spec() == 0 {
                        fps
                    } else {
                        o.min_spec()
                    }
                    &&& n.average_spec() == sum(o.window()) / AVERAGE_WINDOW as int
                    &&& n.window() == o.window().update(cur as int, fps)
                    &&& n.cursor() == cur + 1
                    &&& n.shown() == fps_text_of(
                        fps,
                        n.average_spec(),
                        n.max_spec(),
                        n.min_spec(),
                        viewport.0,
                        viewport.1,
                    )
                } else {
                    &&& n.last_update_spec() == o.last_update_spec()
                    &&& n.max_spec() == o.max_spec()
                    &&& n.min_spec() == o.min_spec()
                    &&& n.average_spec() == o.average_spec()
                    &&& n.window() == o.window()
                    &&& n.cursor() == o.cursor()
                    &&& n.shown() == o.shown()
                }
            }),
    {
        self.current = fps;
        if now > self.last_update && now - self.last_update > REFRESH_MICROS {
            if self.current > self.max {
                self.max = self.current;
            }
            if self.current < self.min || self.min == 0 {
                self.min = self.current;
            }
            self.last_update = now;
            self.update_average();
            self.text = fps_text(
                self.current,
                self.average,
                self.max,
                self.min,
                viewport.0,
                viewport.1,
            );
        }
    }

    fn update_average(&mut self)
        requires
            old(self).wf(),
        ensures
            final(self).wf(),
            ({
                let cur = if old(self).avg_cursor >= AVERAGE_WINDOW {
                    0
                } else {
                    old(self).avg_cursor
                };
                &&& final(self).average == sum(old(self).avg_window@) / AVERAGE_WINDOW as int
                &&& final(self).avg_window@ == old(self).avg_window@.update(
                    cur as int,
                    old(self).current,
                )
                &&& final(self).avg_cursor == cur + 1
                &&& final(self).current == old(self).current
                &&& final(self).max == old(self).max
                &&& final(self).min == old(self).min
                &&& final(self).last_update == old(self).last_update
                &&& final(self).text == old(self).text
            }),
    {
        if self.avg_cursor >= AVERAGE_WINDOW {
            self.avg_cursor = 0;
        }
        let mut total: u64 = 0;
        let mut i: usize = 0;
        while i < AVERAGE_WINDOW
            invariant
                i <= AVERAGE_WINDOW,
                self.avg_window@.len() == AVERAGE_WINDOW,
                total == sum(self.avg_window@.subrange(0, i as int)),
                total <= i * 0xffff_ffff,
            decreases AVERAGE_WINDOW - i,
        {
            assert(self.avg_window@.subrange(0, i + 1).drop_last() =~= self.avg_window@.subrange(
                0,
                i as int,
            ));
            total = total + self.avg_window[i] as u64;
            i = i + 1;
        }
        assert(self.avg_window@.subrange(0, AVERAGE_WINDOW as int) =~= self.avg_window@);
        self.average = (total / AVERAGE_WINDOW as u64) as u32;
        self.avg_window.set(self.avg_cursor, self.current);
        self.avg_cursor = self.avg_cursor + 1;
    }

    /// The latest sample.
    pub fn current(&self) -> (r: u32)
        ensures
            r == self.current_spec(),
    {
        self.current
    }

    /// The average at the last refresh.
    pub fn average(&self) -> (r: u32)
        ensures
            r == self.average_spec(),
    {
        self.average
    }

    /// The highest sample seen at a refresh.
    pub fn max(&self) -> (r: u32)
        ensures
            r == self.max_spec(),
    {
        self.max
    }

    /// The lowest sample seen at a refresh (0 until the first refresh).
    pub fn min(&self) -> (r: u32)
        ensures
            r == self.min_spec(),
    {
        self.min
    }
}

} // verus!
