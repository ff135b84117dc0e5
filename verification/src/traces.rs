use vstd::prelude::*;
use crate::config::{contains_label, labels_of};
use crate::scene::TraceEvent;
use crate::text::str_equal;

verus! {

/// The labels among the first `n` that are not the given one, in their
/// order.
pub open spec fn without_upto(labels: Seq<Seq<char>>, label: Seq<char>, n: int) -> Seq<Seq<char>>
    decreases n,
{
    if n <= 0 {
        Seq::empty()
    } else if labels[n - 1] == label {
        without_upto(labels, label, n - 1)
    } else {
        without_upto(labels, label, n - 1).push(labels[n - 1])
    }
}

/// The labels that are not the given one, in their order.
pub open spec fn without(labels: Seq<Seq<char>>, label: Seq<char>) -> Seq<Seq<char>> {
    without_upto(labels, label, labels.len() as int)
}

/// Which traces to show: the points whose traces are shown, and the range
/// of frames that a trace runs over.
#[derive(Debug)]
pub struct TraceInfo {
    /// The frame at which a trace begins.
    pub start_frame: usize,
    /// The frame before which a trace ends.
    pub end_frame: usize,
    /// The labels of the points whose traces are shown.
    pub points: Vec<String>,
}

/// The mathematical value of the traces to show.
pub struct TraceModel {
    pub start_frame: usize,
    pub end_frame: usize,
    pub points: Seq<Seq<char>>,
}

/// What the scene has to do about the traces after an event.
#[derive(Debug, PartialEq, Eq)]
pub enum TraceAction {
    /// Take every trace away and draw the traces of all the points anew.
    Redraw,
    /// Take the traces of one point away.
    Despawn(String),
    /// Take every trace away.
    DespawnAll,
}

impl View for TraceInfo {
    type V = TraceModel;

    open spec fn view(&self) -> TraceModel {
        TraceModel { start_frame: self.start_frame, end_frame: self.end_frame, points: labels_of(self.points@) }
    }
}

/// The traces after an event. A trace that is added joins the points unless
/// it is among them; a trace that is taken away leaves them; taking all
/// away leaves no point.
pub open spec fn traces_after(traces: TraceModel, event: TraceEvent) -> TraceModel {
    match event {
        TraceEvent::AddTraceEvent(trace) => if traces.points.contains(trace@) {
            traces
        } else {
            TraceModel { points: traces.points.push(trace@), ..traces }
        },
        TraceEvent::UpdateTraceEvent => traces,
        TraceEvent::DespawnTraceEvent(trace) => TraceModel { points: without(traces.points, trace@), ..traces },
        TraceEvent::DespawnAllTracesEvent => TraceModel { points: Seq::empty(), ..traces },
    }
}

impl TraceInfo {
    /// No traces, over no frames.
    pub fn default() -> (traces: Self)
        ensures
            traces@ == (TraceModel { start_frame: 0, end_frame: 0, points: Seq::empty() }),
    {
        let traces = TraceInfo { start_frame: 0, end_frame: 0, points: Vec::new() };
        assert(traces@.points =~= Seq::empty());
        traces
    }

    /// Whether the trace of a point is shown.
    pub fn is_trace_added(&self, trace: String) -> (added: bool)
        ensures
            added == self@.points.contains(trace@),
    {
        contains_label(&self.points, trace.as_str())
    }

    /// Shows the trace of a point.
    pub fn add_point(&mut self, point: String)
        ensures
            final(self)@ == (TraceModel { points: old(self)@.points.push(point@), ..old(self)@ }),
    {
        self.points.push(point);
        assert(self@.points =~= old(self)@.points.push(point@));
    }

    /// Shows the traces of a point no longer.
    pub fn remove_point(&mut self, point: String)
        ensures
            final(self)@ == (TraceModel { points: without(old(self)@.points, point@), ..old(self)@ }),
    {
        let mut kept: Vec<String> = Vec::new();
        assert(labels_of(kept@) =~= Seq::empty());
        let mut i: usize = 0;
        while i < self.points.len()
            invariant
                i <= self.points.len(),
                *self == *old(self),
                labels_of(kept@) == without_upto(labels_of(self.points@), point@, i as int),
            decreases self.points.len() - i,
        {
            if !str_equal(self.points[i].as_str(), point.as_str()) {
                let ghost before = kept@;
                kept.push(self.points[i].clone());
                assert(labels_of(kept@) =~= labels_of(before).push(self.points@[i as int]@));
            }
            i += 1;
        }
        self.points = kept;
    }

    /// Takes an event in: changes the points whose traces are shown, and
    /// tells what the scene has to do.
    pub fn handle(&mut self, event: &TraceEvent) -> (action: TraceAction)
        ensures
            final(self)@ == traces_after(old(self)@, *event),
            match *event {
                TraceEvent::AddTraceEvent(_) => action == TraceAction::Redraw,
                TraceEvent::UpdateTraceEvent => action == TraceAction::Redraw,
                TraceEvent::DespawnTraceEvent(trace) => action matches TraceAction::Despawn(t) && t@ == trace@,
                TraceEvent::DespawnAllTracesEvent => action == TraceAction::DespawnAll,
            },
    {
        match event {
            TraceEvent::AddTraceEvent(trace) => {
                if !self.is_trace_added(trace.clone()) {
                    self.add_point(trace.clone());
                }
                TraceAction::Redraw
            },
            TraceEvent::UpdateTraceEvent => TraceAction::Redraw,
            TraceEvent::DespawnTraceEvent(trace) => {
                self.remove_point(trace.clone());
                TraceAction::Despawn(trace.clone())
            },
            TraceEvent::DespawnAllTracesEvent => {
                self.points = Vec::new();
                assert(self@.points =~= Seq::empty());
                TraceAction::DespawnAll
            },
        }
    }
}

} // verus!
