//! The recent course of one metric, in windows of three lengths.

use vstd::prelude::*;

use crate::clock::{time_between, Duration, Instant};
use crate::quantity::Quantity;
use crate::ring::{cloned_values, newest, RingBuffer};

verus! {

/// A value and the moment at which it was taken.
#[derive(Debug)]
pub struct MetricPoint<V> {
    pub timestamp: Instant,
    pub value: V,
}

impl<V: Clone> Clone for MetricPoint<V> {
    fn clone(&self) -> (result: Self)
        ensures
            result.timestamp == self.timestamp,
            cloned(self.value, result.value),
    {
        MetricPoint { timestamp: self.timestamp, value: self.value.clone() }
    }
}

impl<V: Copy> Copy for MetricPoint<V> {
}

/// The points of the last minute, five minutes and hour, at one point per
/// second.
#[derive(Debug)]
pub struct TimeSeries<V> {
    pub last_minute: RingBuffer<MetricPoint<V>>,
    pub last_five_minutes: RingBuffer<MetricPoint<V>>,
    pub last_hour: RingBuffer<MetricPoint<V>>,
}

/// What the windows of a series hold, oldest points first.
pub struct Windows<V> {
    pub last_minute: Seq<MetricPoint<V>>,
    pub last_five_minutes: Seq<MetricPoint<V>>,
    pub last_hour: Seq<MetricPoint<V>>,
}

impl<V> View for TimeSeries<V> {
    type V = Windows<V>;

    open spec fn view(&self) -> Windows<V> {
        Windows {
            last_minute: self.last_minute@,
            last_five_minutes: self.last_five_minutes@,
            last_hour: self.last_hour@,
        }
    }
}

/// The windows after `points` were recorded, one after the other, from an empty
/// series.
pub open spec fn windows_of<V>(points: Seq<MetricPoint<V>>) -> Windows<V> {
    Windows {
        last_minute: newest(points, 60),
        last_five_minutes: newest(points, 300),
        last_hour: newest(points, 3_600),
    }
}

impl<V> TimeSeries<V> {
    /// The windows have the lengths of a new series.
    pub open spec fn standard_windows(&self) -> bool {
        &&& self.last_minute.spec_capacity() == 60
        &&& self.last_five_minutes.spec_capacity() == 300
        &&& self.last_hour.spec_capacity() == 3_600
    }

    /// The series is what `before` becomes when `point` is recorded.
    pub open spec fn extends(&self, before: &Self, point: MetricPoint<V>) -> bool {
        &&& self.last_minute@ == newest(
            before.last_minute@.push(point),
            before.last_minute.spec_capacity(),
        )
        &&& self.last_five_minutes@ == newest(
            before.last_five_minutes@.push(point),
            before.last_five_minutes.spec_capacity(),
        )
        &&& self.last_hour@ == newest(
            before.last_hour@.push(point),
            before.last_hour.spec_capacity(),
        )
        &&& self.same_lengths(before)
    }

    pub open spec fn same_lengths(&self, other: &Self) -> bool {
        &&& self.last_minute.spec_capacity() == other.last_minute.spec_capacity()
        &&& self.last_five_minutes.spec_capacity() == other.last_five_minutes.spec_capacity()
        &&& self.last_hour.spec_capacity() == other.last_hour.spec_capacity()
    }
}

impl<V> Default for TimeSeries<V> {
    fn default() -> (result: Self)
        ensures
            result@ == windows_of(Seq::<MetricPoint<V>>::empty()),
            result.standard_windows(),
            result.last_minute@.len() == 0,
            result.last_five_minutes@.len() == 0,
            result.last_hour@.len() == 0,
            result.last_minute.spec_capacity() == 60,
            result.last_five_minutes.spec_capacity() == 300,
            result.last_hour.spec_capacity() == 3_600,
    {
        TimeSeries {
            last_minute: RingBuffer::new(60),
            last_five_minutes: RingBuffer::new(300),
            last_hour: RingBuffer::new(3_600),
        }
    }
}

/// Every window of `copy` holds clones of the points of `windows`.
pub open spec fn cloned_windows<V: Clone>(windows: Windows<V>, copy: Windows<V>) -> bool {
    &&& cloned_values(windows.last_minute, copy.last_minute)
    &&& cloned_values(windows.last_five_minutes, copy.last_five_minutes)
    &&& cloned_values(windows.last_hour, copy.last_hour)
}

impl<V: Clone> Clone for TimeSeries<V> {
    fn clone(&self) -> (result: Self)
        ensures
            cloned_windows(self@, result@),
            result.same_lengths(self),
    {
        TimeSeries {
            last_minute: self.last_minute.clone(),
            last_five_minutes: self.last_five_minutes.clone(),
            last_hour: self.last_hour.clone(),
        }
    }
}

/// A copy of a series of exact quantities is the series.
pub(crate) proof fn lemma_cloned_quantities(windows: Windows<Quantity>, copy: Windows<Quantity>)
    requires
        cloned_windows(windows, copy),
    ensures
        copy == windows,
{
    assert(copy.last_minute =~= windows.last_minute);
    assert(copy.last_five_minutes =~= windows.last_five_minutes);
    assert(copy.last_hour =~= windows.last_hour);
}

/// The value of a point, with the time since the first of `points`.
pub open spec fn since_first<V>(points: Seq<MetricPoint<V>>, index: int) -> (Duration, V) {
    (
        Duration {
            nanos: time_between(points[0].timestamp, points[index].timestamp) as u128,
        },
        points[index].value,
    )
}

impl<V: Copy> TimeSeries<V> {
    /// Records a value in every window.
    pub fn push(&mut self, timestamp: Instant, value: V)
        ensures
            final(self).extends(old(self), MetricPoint { timestamp, value }),
            final(self).last_minute@.last() == (MetricPoint { timestamp, value }),
            final(self).last_five_minutes@.last() == (MetricPoint { timestamp, value }),
            final(self).last_hour@.last() == (MetricPoint { timestamp, value }),
            final(self).last_minute.spec_capacity() == old(self).last_minute.spec_capacity(),
            final(self).last_five_minutes.spec_capacity()
                == old(self).last_five_minutes.spec_capacity(),
            final(self).last_hour.spec_capacity() == old(self).last_hour.spec_capacity(),
            ({
                let point = MetricPoint { timestamp, value };
                let minute = old(self).last_minute;
                let five_minutes = old(self).last_five_minutes;
                let hour = old(self).last_hour;
                &&& minute@.len() < minute.spec_capacity() ==> final(self).last_minute@
                    == minute@.push(point)
                &&& minute@.len() == minute.spec_capacity() ==> final(self).last_minute@
                    == minute@.drop_first().push(point)
                &&& five_minutes@.len() < five_minutes.spec_capacity()
                    ==> final(self).last_five_minutes@ == five_minutes@.push(point)
                &&& five_minutes@.len() == five_minutes.spec_capacity()
                    ==> final(self).last_five_minutes@ == five_minutes@.drop_first().push(point)
                &&& hour@.len() < hour.spec_capacity() ==> final(self).last_hour@ == hour@.push(
                    point,
                )
                &&& hour@.len() == hour.spec_capacity() ==> final(self).last_hour@
                    == hour@.drop_first().push(point)
            }),
    {
        let point = MetricPoint { timestamp, value };
        self.last_minute.push(point);
        self.last_five_minutes.push(point);
        self.last_hour.push(point);
    }

    /// The points of the last minute as time since the first of them and value.
    pub fn minute_values(&self) -> (result: Vec<(Duration, V)>)
        ensures
            result@ == Seq::new(
                self.last_minute@.len(),
                |i: int| since_first(self.last_minute@, i),
            ),
            result@.len() == self.last_minute@.len(),
            forall|i: int|
                0 <= i < result@.len() ==> {
                    let first = self.last_minute@[0].timestamp.nanos;
                    let time = self.last_minute@[i].timestamp.nanos;
                    &&& (#[trigger] result@[i]).1 == self.last_minute@[i].value
                    &&& first <= time ==> first + result@[i].0.nanos == time
                    &&& time < first ==> result@[i].0.nanos == 0
                },
    {
        let mut result: Vec<(Duration, V)> = Vec::new();
        let mut i: usize = 0;
        let ghost points = self.last_minute@;
        while i < self.last_minute.len()
            invariant
                points == self.last_minute@,
                i <= points.len(),
                result@ == Seq::new(i as nat, |j: int| since_first(points, j)),
            decreases points.len() - i,
        {
            let first = self.last_minute.at(0);
            let point = self.last_minute.at(i);
            let pair = (point.timestamp.duration_since(first.timestamp), point.value);
            assert(pair == since_first(points, i as int));
            result.push(pair);
            i += 1;
            assert(result@ =~= Seq::new(i as nat, |j: int| since_first(points, j)));
        }
        result
    }
}

/// A series that has recorded `points` since it was made holds the newest 60,
/// 300 and 3600 of them, and still does after one more point, which is then the
/// newest of every window.
pub proof fn law_series_records<V>(
    before: TimeSeries<V>,
    after: TimeSeries<V>,
    points: Seq<MetricPoint<V>>,
    point: MetricPoint<V>,
)
    requires
        before.standard_windows(),
        before@ == windows_of(points),
        after.extends(&before, point),
    ensures
        after.standard_windows(),
        after@ == windows_of(points.push(point)),
        after.last_minute@.len() == if points.len() < 60 {
            points.len() + 1
        } else {
            60
        },
        after.last_minute@.last() == point,
        after.last_five_minutes@.last() == point,
        after.last_hour@.last() == point,
{
    assert(newest(newest(points, 60).push(point), 60) =~= newest(points.push(point), 60));
    assert(newest(newest(points, 300).push(point), 300) =~= newest(points.push(point), 300));
    assert(newest(newest(points, 3_600).push(point), 3_600) =~= newest(points.push(point), 3_600));
}

/// Each shorter window is the end of each longer one, so the windows never
/// disagree.
pub proof fn law_windows_agree<V>(points: Seq<MetricPoint<V>>)
    ensures
        windows_of(points).last_minute == newest(windows_of(points).last_five_minutes, 60),
        windows_of(points).last_five_minutes == newest(windows_of(points).last_hour, 300),
        windows_of(points).last_minute.len() == if points.len() < 60 {
            points.len()
        } else {
            60
        },
        windows_of(points).last_five_minutes.len() <= 300,
        windows_of(points).last_hour.len() <= 3_600,
{
    assert(newest(newest(points, 300), 60) =~= newest(points, 60));
    assert(newest(newest(points, 3_600), 300) =~= newest(points, 300));
}

/// Every window holds the end of what was recorded: as many points as it has
/// room for, each in its place counted from the newest.
pub proof fn law_windows_hold_the_end<V>(points: Seq<MetricPoint<V>>, i: int)
    requires
        0 <= i < points.len(),
    ensures
        ({
            let windows = windows_of(points);
            let n = points.len();
            &&& windows.last_minute.len() == if n < 60 { n } else { 60 }
            &&& windows.last_five_minutes.len() == if n < 300 { n } else { 300 }
            &&& windows.last_hour.len() == if n < 3_600 { n } else { 3_600 }
            &&& i < 60 ==> windows.last_minute[windows.last_minute.len() - 1 - i] == points[n - 1
                - i]
            &&& i < 300 ==> windows.last_five_minutes[windows.last_five_minutes.len() - 1 - i]
                == points[n - 1 - i]
            &&& i < 3_600 ==> windows.last_hour[windows.last_hour.len() - 1 - i] == points[n - 1
                - i]
        }),
{
}

/// Times are counted from the first point: put on top of its time they give the
/// time of each point, and points before the first stand at its time. The
/// values are those that were recorded.
pub proof fn law_times_count_from_the_first_point<V>(points: Seq<MetricPoint<V>>, i: int)
    requires
        0 <= i < points.len(),
    ensures
        points[0].timestamp.nanos <= points[i].timestamp.nanos ==> points[0].timestamp.nanos
            + since_first(points, i).0.nanos == points[i].timestamp.nanos,
        points[0].timestamp.nanos > points[i].timestamp.nanos ==> since_first(points, i).0.nanos
            == 0,
        since_first(points, 0).0.nanos == 0,
        since_first(points, i).1 == points[i].value,
{
}

/// Points that follow each other in time do so on the chart, as far apart as
/// they were taken.
pub proof fn law_times_ascend_with_the_clock<V>(points: Seq<MetricPoint<V>>, i: int, j: int)
    requires
        0 <= i <= j < points.len(),
        points[0].timestamp.nanos <= points[i].timestamp.nanos <= points[j].timestamp.nanos,
    ensures
        since_first(points, i).0.nanos <= since_first(points, j).0.nanos,
        since_first(points, j).0.nanos - since_first(points, i).0.nanos
            == points[j].timestamp.nanos - points[i].timestamp.nanos,
{
}

/// A series has its lengths: sixty points, three hundred and three thousand six
/// hundred.
pub proof fn law_standard_windows_have_their_lengths<V>(series: TimeSeries<V>)
    ensures
        series.standard_windows() <==> series.last_minute.spec_capacity() == 60
            && series.last_five_minutes.spec_capacity() == 300 && series.last_hour.spec_capacity()
            == 3_600,
        series@.last_minute == series.last_minute@,
        series@.last_five_minutes == series.last_five_minutes@,
        series@.last_hour == series.last_hour@,
{
}

/// Recording a point puts it at the end of every window; a window with room keeps
/// all that it held, a full one all but its oldest point, and no window changes
/// its length.
pub proof fn law_recording_drops_at_most_the_oldest<V>(
    before: TimeSeries<V>,
    after: TimeSeries<V>,
    point: MetricPoint<V>,
)
    requires
        after.extends(&before, point),
    ensures
        before.last_minute@.len() < before.last_minute.spec_capacity() ==> after.last_minute@
            == before.last_minute@.push(point),
        before.last_minute@.len() == before.last_minute.spec_capacity() ==> after.last_minute@
            == before.last_minute@.push(point).drop_first(),
        before.last_five_minutes@.len() < before.last_five_minutes.spec_capacity()
            ==> after.last_five_minutes@ == before.last_five_minutes@.push(point),
        before.last_five_minutes@.len() == before.last_five_minutes.spec_capacity()
            ==> after.last_five_minutes@ == before.last_five_minutes@.push(point).drop_first(),
        before.last_hour@.len() < before.last_hour.spec_capacity() ==> after.last_hour@
            == before.last_hour@.push(point),
        before.last_hour@.len() == before.last_hour.spec_capacity() ==> after.last_hour@
            == before.last_hour@.push(point).drop_first(),
        after.last_minute.spec_capacity() == before.last_minute.spec_capacity(),
        after.last_five_minutes.spec_capacity() == before.last_five_minutes.spec_capacity(),
        after.last_hour.spec_capacity() == before.last_hour.spec_capacity(),
{
    assert(before.last_minute@.push(point).skip(1) =~= before.last_minute@.push(
        point,
    ).drop_first());
    assert(before.last_five_minutes@.push(point).skip(1) =~= before.last_five_minutes@.push(
        point,
    ).drop_first());
    assert(before.last_hour@.push(point).skip(1) =~= before.last_hour@.push(
        point,
    ).drop_first());
}

/// A copy of a series of quantities holds the same points in windows of the same
/// lengths.
pub proof fn law_copies_hold_the_same_points(
    series: TimeSeries<Quantity>,
    copy: TimeSeries<Quantity>,
)
    requires
        cloned_windows(series@, copy@),
        copy.same_lengths(&series),
    ensures
        copy.last_minute@ == series.last_minute@,
        copy.last_five_minutes@ == series.last_five_minutes@,
        copy.last_hour@ == series.last_hour@,
        copy.last_minute.spec_capacity() == series.last_minute.spec_capacity(),
        copy.last_five_minutes.spec_capacity() == series.last_five_minutes.spec_capacity(),
        copy.last_hour.spec_capacity() == series.last_hour.spec_capacity(),
{
    lemma_cloned_quantities(series@, copy@);
}

} // verus!
