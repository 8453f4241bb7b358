//! What holds of every chart, whatever the ticks bring.

use vstd::prelude::*;
use crate::window::{ChartView, STEP};

verus! {

/// A tick keeps every window as long as it was, and keeps the series, their
/// names and their batches.
pub proof fn lemma_tick_keeps_lengths<T>(chart: ChartView<T>, fresh: Seq<Seq<T>>)
    requires
        chart.can_advance(fresh),
    ensures
        chart.advance(fresh).series.len() == chart.series.len(),
        forall|i: int|
            0 <= i < chart.series.len() ==> {
                &&& (#[trigger] chart.advance(fresh).series[i]).samples.len()
                    == chart.series[i].samples.len()
                &&& chart.advance(fresh).series[i].name == chart.series[i].name
                &&& chart.advance(fresh).series[i].batch == chart.series[i].batch
            },
{
    assert forall|i: int| 0 <= i < chart.series.len() implies (#[trigger] chart.advance(
        fresh,
    ).series[i]).samples.len() == chart.series[i].samples.len() by {
        assert(fresh[i].len() == chart.series[i].batch);
    }
}

/// After a tick a window holds what it held behind its batch, in the same
/// order, followed by the fresh samples.
pub proof fn lemma_tick_shifts_window<T>(chart: ChartView<T>, fresh: Seq<Seq<T>>, i: int)
    requires
        chart.can_advance(fresh),
        0 <= i < chart.series.len(),
    ensures
        forall|k: int|
            0 <= k < chart.series[i].samples.len() - chart.series[i].batch ==> chart.advance(
                fresh,
            ).series[i].samples[k] == chart.series[i].samples[k + chart.series[i].batch],
        forall|k: int|
            0 <= k < chart.series[i].batch ==> chart.advance(fresh).series[i].samples[chart.series[i].samples.len()
                - chart.series[i].batch + k] == fresh[i][k],
{
    assert(fresh[i].len() == chart.series[i].batch);
}

/// Ticks that can each take place keep every window as long as it was.
pub proof fn lemma_ticks_keep_lengths<T>(chart: ChartView<T>, ticks: Seq<Seq<Seq<T>>>)
    requires
        chart.can_advance_all(ticks),
    ensures
        chart.advance_all(ticks).series.len() == chart.series.len(),
        forall|i: int|
            0 <= i < chart.series.len() ==> (#[trigger] chart.advance_all(ticks).series[i]).samples.len()
                == chart.series[i].samples.len(),
    decreases ticks.len(),
{
    if ticks.len() > 0 {
        let before = chart.advance_all(ticks.drop_last());
        lemma_ticks_keep_lengths(chart, ticks.drop_last());
        lemma_tick_keeps_lengths(before, ticks.last());
    }
}

/// Every tick moves the visible range one step: after `n` ticks both of its
/// ends stand `n` steps further right, and it is as wide as it was.
pub proof fn lemma_ticks_shift_range<T>(chart: ChartView<T>, ticks: Seq<Seq<Seq<T>>>)
    ensures
        chart.advance_all(ticks).x_min == chart.x_min + ticks.len() * STEP,
        chart.advance_all(ticks).x_max == chart.x_max + ticks.len() * STEP,
        chart.advance_all(ticks).x_max - chart.advance_all(ticks).x_min == chart.x_max
            - chart.x_min,
    decreases ticks.len(),
{
    if ticks.len() > 0 {
        lemma_ticks_shift_range(chart, ticks.drop_last());
    }
}

} // verus!
