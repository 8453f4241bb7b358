//! The chart window model: named series of samples under one visible range.
//!
//! Each series is a window of fixed length. A tick evicts a series' batch of
//! samples from the front of its window, appends as many fresh ones, and moves
//! the visible range of the chart one step to the right.

use vstd::prelude::*;

verus! {

/// How far one tick moves the visible range.
pub const STEP: i64 = 1;

/// Why a series could not be added or seeded.
#[derive(Debug, Clone, Copy, PartialEq, Eq)]
pub enum WindowError {
    /// The chart has no series of that name.
    UnknownSeries,
    /// The chart already has a series of that name.
    DuplicateSeries,
    /// The samples are not as many as the window holds.
    WrongLength,
}

/// One series: its window of samples, oldest first, and how many of them a
/// tick replaces.
pub struct Series<T> {
    name: String,
    samples: Vec<T>,
    batch: usize,
}

/// The mathematical value of a [`Series`].
pub struct SeriesView<T> {
    pub name: Seq<char>,
    pub samples: Seq<T>,
    pub batch: nat,
}

impl<T> View for Series<T> {
    type V = SeriesView<T>;

    closed spec fn view(&self) -> SeriesView<T> {
        SeriesView { name: self.name@, samples: self.samples@, batch: self.batch as nat }
    }
}

impl<T> SeriesView<T> {
    /// The series after one tick that brings the samples `fresh`.
    pub open spec fn advance(self, fresh: Seq<T>) -> SeriesView<T> {
        SeriesView { samples: self.samples.skip(self.batch as int) + fresh, ..self }
    }
}

impl<T> Series<T> {
    /// One tick of this series: its batch of samples leaves at the front of
    /// the window, and `fresh` joins at the back.
    fn tick(&mut self, fresh: Vec<T>)
        requires
            fresh.len() == old(self).batch,
            old(self).batch <= old(self).samples.len(),
        ensures
            final(self)@ == old(self)@.advance(fresh@),
    {
        let ghost window = self.samples@;
        let mut fresh = fresh;
        let mut evicted: usize = 0;
        while evicted < self.batch
            invariant
                evicted <= self.batch,
                self.batch == old(self).batch,
                self.name == old(self).name,
                self.batch <= window.len(),
                self.samples@ == window.skip(evicted as int),
            decreases self.batch - evicted,
        {
            let _ = self.samples.remove(0);
            evicted = evicted + 1;
        }
        self.samples.append(&mut fresh);
    }
}

/// The first of the series before `end` that is called `name`.
pub open spec fn index_upto<T>(series: Seq<SeriesView<T>>, name: Seq<char>, end: int) -> Option<
    int,
>
    decreases end,
{
    if end <= 0 {
        None
    } else {
        match index_upto(series, name, end - 1) {
            Some(i) => Some(i),
            None => if series[end - 1].name == name {
                Some(end - 1)
            } else {
                None
            },
        }
    }
}

/// The mathematical value of a [`ChartModel`].
pub struct ChartView<T> {
    pub series: Seq<SeriesView<T>>,
    pub x_min: int,
    pub x_max: int,
}

impl<T> ChartView<T> {
    /// Where the series called `name` stands.
    pub open spec fn index_of(self, name: Seq<char>) -> Option<int> {
        index_upto(self.series, name, self.series.len() as int)
    }

    /// The chart with one more series, unless the name is taken.
    pub open spec fn add(self, name: Seq<char>, samples: Seq<T>, batch: nat) -> Result<
        ChartView<T>,
        WindowError,
    > {
        if self.index_of(name) is Some {
            Err(WindowError::DuplicateSeries)
        } else {
            Ok(ChartView { series: self.series.push(SeriesView { name, samples, batch }), ..self })
        }
    }

    /// The chart with the window of the series `name` replaced by `samples`,
    /// which must be as many as the window holds.
    pub open spec fn seed(self, name: Seq<char>, samples: Seq<T>) -> Result<
        ChartView<T>,
        WindowError,
    > {
        match self.index_of(name) {
            None => Err(WindowError::UnknownSeries),
            Some(i) => if samples.len() != self.series[i].samples.len() {
                Err(WindowError::WrongLength)
            } else {
                Ok(
                    ChartView {
                        series: self.series.update(i, SeriesView { samples, ..self.series[i] }),
                        ..self
                    },
                )
            },
        }
    }

    /// A tick can take place: `fresh` brings each series its batch, and no
    /// series holds fewer samples than its batch.
    pub open spec fn can_advance(self, fresh: Seq<Seq<T>>) -> bool {
        &&& fresh.len() == self.series.len()
        &&& forall|i: int|
            0 <= i < self.series.len() ==> {
                &&& (#[trigger] fresh[i]).len() == self.series[i].batch
                &&& self.series[i].batch <= self.series[i].samples.len()
            }
    }

    /// The chart after one tick that brings series `i` the samples `fresh[i]`.
    pub open spec fn advance(self, fresh: Seq<Seq<T>>) -> ChartView<T> {
        ChartView {
            series: Seq::new(self.series.len(), |i: int| self.series[i].advance(fresh[i])),
            x_min: self.x_min + STEP,
            x_max: self.x_max + STEP,
        }
    }

    /// The chart after the ticks `ticks`, in order.
    pub open spec fn advance_all(self, ticks: Seq<Seq<Seq<T>>>) -> ChartView<T>
        decreases ticks.len(),
    {
        if ticks.len() == 0 {
            self
        } else {
            self.advance_all(ticks.drop_last()).advance(ticks.last())
        }
    }

    /// Each of the ticks `ticks` can take place when its turn comes.
    pub open spec fn can_advance_all(self, ticks: Seq<Seq<Seq<T>>>) -> bool
        decreases ticks.len(),
    {
        if ticks.len() == 0 {
            true
        } else {
            self.can_advance_all(ticks.drop_last()) && self.advance_all(
                ticks.drop_last(),
            ).can_advance(ticks.last())
        }
    }
}

/// The values of the batches `fresh`, in order.
pub open spec fn batches_view<T>(fresh: Seq<Vec<T>>) -> Seq<Seq<T>> {
    fresh.map_values(|b: Vec<T>| b@)
}

/// The chart: its series, in the order in which they were added, and the
/// range of x that is visible.
pub struct ChartModel<T> {
    series: Vec<Series<T>>,
    x_min: i64,
    x_max: i64,
}

impl<T> View for ChartModel<T> {
    type V = ChartView<T>;

    closed spec fn view(&self) -> ChartView<T> {
        ChartView {
            series: self.series@.map_values(|s: Series<T>| s@),
            x_min: self.x_min as int,
            x_max: self.x_max as int,
        }
    }
}

impl<T> ChartModel<T> {
    /// No two series have the same name.
    pub open spec fn wf(&self) -> bool {
        forall|i: int, j: int|
            0 <= i < j < self@.series.len() ==> (#[trigger] self@.series[i]).name != (
            #[trigger] self@.series[j]).name
    }

    /// A chart without series that shows the range from `x_min` to `x_max`.
    pub fn new(x_min: i64, x_max: i64) -> (chart: ChartModel<T>)
        ensures
            chart.wf(),
            chart@ == (ChartView::<T> { series: Seq::empty(), x_min: x_min as int, x_max: x_max as int }),
    {
        let chart = ChartModel { series: Vec::new(), x_min, x_max };
        assert(chart@.series =~= Seq::empty());
        chart
    }

    fn position(&self, name: &str) -> (found: Option<usize>)
        ensures
            match found {
                Some(i) => self@.index_of(name@) == Some(i as int) && i < self.series.len(),
                None => self@.index_of(name@) is None,
            },
    {
        let key = name.to_owned();
        let mut found: Option<usize> = None;
        let mut i: usize = 0;
        while i < self.series.len()
            invariant
                i <= self.series.len(),
                key@ == name@,
                match found {
                    Some(at) => index_upto(self@.series, name@, i as int) == Some(at as int) && at
                        < i,
                    None => index_upto(self@.series, name@, i as int) is None,
                },
            decreases self.series.len() - i,
        {
            assert(self@.series[i as int].name == self.series[i as int].name@);
            if found.is_none() && self.series[i].name == key {
                found = Some(i);
            }
            i = i + 1;
        }
        found
    }

    /// Adds a series called `name` whose window holds `samples` and whose
    /// ticks replace `batch` of them. Refused, with the chart unchanged, when
    /// a series of that name exists.
    pub fn add_series(&mut self, name: &str, samples: Vec<T>, batch: usize) -> (r: Result<
        (),
        WindowError,
    >)
        requires
            old(self).wf(),
        ensures
            final(self).wf(),
            match r {
                Ok(()) => old(self)@.add(name@, samples@, batch as nat) == Ok::<
                    ChartView<T>,
                    WindowError,
                >(final(self)@),
                Err(e) => old(self)@.add(name@, samples@, batch as nat) == Err::<
                    ChartView<T>,
                    WindowError,
                >(e) && final(self)@ == old(self)@,
            },
    {
        match self.position(name) {
            Some(_) => Err(WindowError::DuplicateSeries),
            None => {
                proof {
                    lemma_absent(self@.series, name@, self@.series.len() as int);
                }
                self.series.push(Series { name: name.to_owned(), samples, batch });
                assert(self@.series =~= old(self)@.series.push(
                    SeriesView { name: name@, samples: samples@, batch: batch as nat },
                ));
                Ok(())
            },
        }
    }

    /// Replaces the window of the series `name` by `samples`, which must be
    /// as many as the window holds. Refused, with the chart unchanged, when
    /// there is no such series or the length differs.
    pub fn seed(&mut self, name: &str, samples: Vec<T>) -> (r: Result<(), WindowError>)
        requires
            old(self).wf(),
        ensures
            final(self).wf(),
            match r {
                Ok(()) => old(self)@.seed(name@, samples@) == Ok::<ChartView<T>, WindowError>(
                    final(self)@,
                ),
                Err(e) => old(self)@.seed(name@, samples@) == Err::<ChartView<T>, WindowError>(e)
                    && final(self)@ == old(self)@,
            },
    {
        match self.position(name) {
            None => Err(WindowError::UnknownSeries),
            Some(i) => {
                if samples.len() != self.series[i].samples.len() {
                    Err(WindowError::WrongLength)
                } else {
                    self.series[i].samples = samples;
                    assert(self@.series =~= old(self)@.series.update(
                        i as int,
                        SeriesView { samples: samples@, ..old(self)@.series[i as int] },
                    ));
                    Ok(())
                }
            },
        }
    }

    /// The window of the series `name`, oldest sample first, and the visible
    /// range; `None` when there is no such series.
    pub fn current_view(&self, name: &str) -> (r: Option<(&Vec<T>, (i64, i64))>)
        ensures
            match r {
                Some((samples, (x_min, x_max))) => {
                    &&& self@.index_of(name@) is Some
                    &&& samples@ == self@.series[self@.index_of(name@).unwrap()].samples
                    &&& x_min == self@.x_min
                    &&& x_max == self@.x_max
                },
                None => self@.index_of(name@) is None,
            },
    {
        match self.position(name) {
            Some(i) => Some((&self.series[i].samples, (self.x_min, self.x_max))),
            None => None,
        }
    }

    /// The visible range.
    pub fn bounds(&self) -> (r: (i64, i64))
        ensures
            r.0 == self@.x_min,
            r.1 == self@.x_max,
    {
        (self.x_min, self.x_max)
    }

    /// How many series the chart has.
    pub fn series_count(&self) -> (n: usize)
        ensures
            n == self@.series.len(),
    {
        self.series.len()
    }

    /// How many samples a tick replaces in series `i`.
    pub fn batch_of(&self, i: usize) -> (batch: usize)
        requires
            i < self@.series.len(),
        ensures
            batch == self@.series[i as int].batch,
    {
        self.series[i].batch
    }

    /// A tick with the batches `fresh` can take place: the range can move
    /// one step, `fresh` brings each series its batch, and no series holds
    /// fewer samples than its batch.
    pub open spec fn ready(&self, fresh: Seq<Seq<T>>) -> bool {
        &&& self@.x_min + STEP <= i64::MAX
        &&& self@.x_max + STEP <= i64::MAX
        &&& self@.can_advance(fresh)
    }

    /// Whether a tick with the batches `fresh` can take place.
    pub fn can_advance(&self, fresh: &Vec<Vec<T>>) -> (b: bool)
        ensures
            b == self.ready(batches_view(fresh@)),
    {
        if self.x_min > i64::MAX - STEP || self.x_max > i64::MAX - STEP {
            return false;
        }
        if fresh.len() != self.series.len() {
            return false;
        }
        let ghost batches = batches_view(fresh@);
        let mut i: usize = 0;
        while i < self.series.len()
            invariant
                i <= self.series.len(),
                fresh.len() == self.series.len(),
                batches == batches_view(fresh@),
                forall|k: int|
                    0 <= k < i ==> {
                        &&& (#[trigger] batches[k]).len() == self@.series[k].batch
                        &&& self@.series[k].batch <= self@.series[k].samples.len()
                    },
            decreases self.series.len() - i,
        {
            assert(batches[i as int] == fresh[i as int]@);
            assert(self@.series[i as int] == self.series[i as int]@);
            if fresh[i].len() != self.series[i].batch || self.series[i].batch
                > self.series[i].samples.len() {
                return false;
            }
            assert forall|k: int| 0 <= k < i + 1 implies {
                &&& (#[trigger] batches[k]).len() == self@.series[k].batch
                &&& self@.series[k].batch <= self@.series[k].samples.len()
            } by {
                if k == i {
                    assert(batches[i as int].len() == self@.series[i as int].batch);
                    assert(self@.series[i as int].batch <= self@.series[i as int].samples.len());
                }
            }
            i = i + 1;
        }
        true
    }

    /// One tick: every series loses its batch of samples at the front of its
    /// window and gains the batch that `fresh` brings it at the back, and the
    /// visible range moves one step to the right.
    pub fn advance(&mut self, fresh: Vec<Vec<T>>)
        requires
            old(self).wf(),
            old(self).ready(batches_view(fresh@)),
        ensures
            final(self).wf(),
            final(self)@ == old(self)@.advance(batches_view(fresh@)),
    {
        let ghost batches = batches_view(fresh@);
        let ghost before = self@;
        let mut fresh = fresh;
        let mut i: usize = self.series.len();
        while i > 0
            invariant
                i <= self.series.len(),
                self.series.len() == before.series.len(),
                self@.x_min == before.x_min,
                self@.x_max == before.x_max,
                before.can_advance(batches),
                fresh.len() == i,
                forall|k: int| 0 <= k < i ==> (#[trigger] fresh[k])@ == batches[k],
                forall|k: int| 0 <= k < i ==> (#[trigger] self.series[k])@ == before.series[k],
                forall|k: int|
                    i <= k < self.series.len() ==> (#[trigger] self.series[k])@
                        == before.series[k].advance(batches[k]),
            decreases i,
        {
            i = i - 1;
            let batch = match fresh.pop() {
                Some(b) => b,
                None => Vec::new(),
            };
            assert(batch@ == batches[i as int]);
            self.series[i].tick(batch);
        }
        self.x_min = self.x_min + STEP;
        self.x_max = self.x_max + STEP;
        assert(self@.series =~= before.advance(batches).series);
    }
}

proof fn lemma_absent<T>(series: Seq<SeriesView<T>>, name: Seq<char>, end: int)
    requires
        0 <= end <= series.len(),
        index_upto(series, name, end) is None,
    ensures
        forall|i: int| 0 <= i < end ==> (#[trigger] series[i]).name != name,
    decreases end,
{
    if end > 0 {
        lemma_absent(series, name, end - 1);
    }
}

} // verus!
