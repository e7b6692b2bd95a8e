//! Detection of the holds in a run, and the samples in the middle of each hold.

use vstd::prelude::*;
use crate::binary64;
use crate::binary64::{equal_options, Real};
use super::capture::ChannelCapture;
use super::channels::{CalibrationChannel, CalibrationKind};

verus! {

/// A longest stretch of samples with one reference.
#[derive(Debug, Clone, Copy, PartialEq, Eq, Structural)]
pub struct Run {
    pub reference_a: Real,
    pub start_idx: usize,
    pub end_idx: usize,
}

/// The end of the stretch that sample `i - 1` is in: the first sample at or
/// after `i` whose reference differs from the one before it, or the length.
pub open spec fn stretch_end(references: Seq<Option<Real>>, i: int) -> int
    decreases references.len() - i,
{
    if i <= 0 || i >= references.len() {
        references.len() as int
    } else if !binary64::same_option(references[i], references[i - 1]) {
        i
    } else {
        stretch_end(references, i + 1)
    }
}

/// The stretches with a reference from sample `i` on, where `i` begins a stretch.
pub open spec fn runs_from(references: Seq<Option<Real>>, i: int) -> Seq<Run>
    decreases references.len() - i,
{
    if i < 0 || i >= references.len() {
        Seq::empty()
    } else {
        let end = stretch_end(references, i + 1);
        proof {
            lemma_stretch_end(references, i + 1);
        }
        if references[i] is Some {
            seq![
                Run { reference_a: references[i]->0, start_idx: i as usize, end_idx: end as usize },
            ] + runs_from(references, end)
        } else {
            runs_from(references, end)
        }
    }
}

/// A stretch ends behind its first sample and within the recording.
pub proof fn lemma_stretch_end(references: Seq<Option<Real>>, i: int)
    requires
        0 < i <= references.len(),
    ensures
        i <= stretch_end(references, i) <= references.len(),
    decreases references.len() - i,
{
    if i < references.len() && binary64::same_option(references[i], references[i - 1]) {
        lemma_stretch_end(references, i + 1);
    }
}

/// The runs of a recording, given the reference at each sample.
pub fn find_runs(references: &[Option<Real>]) -> (runs: Vec<Run>)
    ensures
        runs@ == runs_from(references@, 0),
        forall|k: int|
            0 <= k < runs@.len() ==> (#[trigger] runs@[k]).start_idx < runs@[k].end_idx
                <= references@.len(),
{
    let mut runs: Vec<Run> = Vec::new();
    let mut start: usize = 0;
    while start < references.len()
        invariant
            start <= references@.len(),
            runs_from(references@, 0) == runs@ + runs_from(references@, start as int),
            forall|k: int|
                0 <= k < runs@.len() ==> (#[trigger] runs@[k]).start_idx < runs@[k].end_idx
                    <= references@.len(),
        decreases references@.len() - start,
    {
        let mut end: usize = start + 1;
        while end < references.len() && equal_options(references[end], references[end - 1])
            invariant
                start < end <= references@.len(),
                stretch_end(references@, start + 1) == stretch_end(references@, end as int),
            decreases references@.len() - end,
        {
            end = end + 1;
        }
        let ghost before = runs@;
        if let Some(reference_a) = references[start] {
            runs.push(Run { reference_a, start_idx: start, end_idx: end });
            assert(before + runs_from(references@, start as int) =~= runs@ + runs_from(
                references@,
                end as int,
            ));
        }
        start = end;
    }
    assert(runs@ + runs_from(references@, start as int) =~= runs@);
    runs
}

/// A hold of at least two samples and the times of its first and last sample.
#[derive(Debug, Clone, Copy, PartialEq, Eq, Structural)]
pub struct StepCandidate {
    pub reference_a: Real,
    pub start_idx: usize,
    pub end_idx: usize,
    pub start_time_s: Real,
    pub stop_time_s: Real,
}

/// The candidate of a run.
pub open spec fn candidate(times: Seq<Real>, run: Run) -> StepCandidate {
    StepCandidate {
        reference_a: run.reference_a,
        start_idx: run.start_idx,
        end_idx: run.end_idx,
        start_time_s: times[run.start_idx as int],
        stop_time_s: times[run.end_idx - 1],
    }
}

/// The candidates among the runs: those of at least two samples.
pub open spec fn candidates(times: Seq<Real>, runs: Seq<Run>) -> Seq<StepCandidate>
    decreases runs.len(),
{
    if runs.len() == 0 {
        Seq::empty()
    } else {
        let before = candidates(times, runs.drop_last());
        if runs.last().end_idx > runs.last().start_idx + 1 {
            before.push(candidate(times, runs.last()))
        } else {
            before
        }
    }
}

impl StepCandidate {
    /// The candidate lies within the first `n` samples.
    pub open spec fn wf(self, n: nat) -> bool {
        self.start_idx + 1 < self.end_idx <= n
    }
}

/// The holds of a recording, given the time and the reference at each sample.
pub fn step_candidates(times: &[Real], references: &[Option<Real>]) -> (v: Vec<StepCandidate>)
    requires
        references@.len() <= times@.len(),
    ensures
        v@ == candidates(times@, runs_from(references@, 0)),
        forall|k: int| 0 <= k < v@.len() ==> (#[trigger] v@[k]).wf(times@.len()),
{
    let runs = find_runs(references);
    let mut v: Vec<StepCandidate> = Vec::new();
    let mut i: usize = 0;
    assert(runs@.take(0) =~= Seq::<Run>::empty());
    while i < runs.len()
        invariant
            i <= runs@.len(),
            references@.len() <= times@.len(),
            forall|k: int|
                0 <= k < runs@.len() ==> (#[trigger] runs@[k]).start_idx < runs@[k].end_idx
                    <= references@.len(),
            v@ == candidates(times@, runs@.take(i as int)),
            forall|k: int| 0 <= k < v@.len() ==> (#[trigger] v@[k]).wf(times@.len()),
        decreases runs@.len() - i,
    {
        assert(runs@.take(i + 1).drop_last() =~= runs@.take(i as int));
        let run = runs[i];
        if run.end_idx > run.start_idx + 1 {
            v.push(
                StepCandidate {
                    reference_a: run.reference_a,
                    start_idx: run.start_idx,
                    end_idx: run.end_idx,
                    start_time_s: times[run.start_idx],
                    stop_time_s: times[run.end_idx - 1],
                },
            );
        }
        i = i + 1;
    }
    assert(runs@.take(runs@.len() as int) =~= runs@);
    v
}

/// The span of a hold whose samples are accepted.
#[derive(Debug, Clone, Copy, PartialEq, Eq, Structural)]
pub struct AcceptWindow {
    pub start_time_s: Real,
    pub stop_time_s: Real,
}

/// A hold and its accepted samples.
#[derive(Debug, Clone, Copy, PartialEq, Eq, Structural)]
pub struct StepSegment {
    pub reference_a: Real,
    pub accept_start_idx: usize,
    pub accept_end_idx: usize,
    pub start_time_s: Real,
    pub stop_time_s: Real,
    pub accept_start_time_s: Real,
    pub accept_stop_time_s: Real,
}

/// The first sample from `i` up to `end` that is not before `time`, if there is one.
pub open spec fn first_from(times: Seq<Real>, i: int, end: int, time: Real) -> Option<int>
    decreases end - i,
{
    if i >= end {
        None
    } else if time.le(times[i]) {
        Some(i)
    } else {
        first_from(times, i + 1, end, time)
    }
}

/// The first sample from `i` up to `end` that is after `time`, if there is one.
pub open spec fn first_after(times: Seq<Real>, i: int, end: int, time: Real) -> Option<int>
    decreases end - i,
{
    if i >= end {
        None
    } else if time.lt(times[i]) {
        Some(i)
    } else {
        first_after(times, i + 1, end, time)
    }
}

/// The first accepted sample of a candidate: the first at or after the window's
/// start, else the candidate's first.
pub open spec fn accept_start(times: Seq<Real>, c: StepCandidate, w: AcceptWindow) -> int {
    match first_from(times, c.start_idx as int, c.end_idx as int, w.start_time_s) {
        Some(i) => i,
        None => c.start_idx as int,
    }
}

/// The end of the accepted samples of a candidate: the first sample after the
/// window's end, else the candidate's end.
pub open spec fn accept_end(times: Seq<Real>, c: StepCandidate, w: AcceptWindow) -> int {
    match first_after(times, accept_start(times, c, w), c.end_idx as int, w.stop_time_s) {
        Some(i) => i,
        None => c.end_idx as int,
    }
}

/// The segment of a candidate, where any of its samples is accepted.
pub open spec fn segment(times: Seq<Real>, c: StepCandidate, w: AcceptWindow) -> Option<StepSegment> {
    if accept_end(times, c, w) <= accept_start(times, c, w) {
        None
    } else {
        Some(
            StepSegment {
                reference_a: c.reference_a,
                accept_start_idx: accept_start(times, c, w) as usize,
                accept_end_idx: accept_end(times, c, w) as usize,
                start_time_s: c.start_time_s,
                stop_time_s: c.stop_time_s,
                accept_start_time_s: w.start_time_s,
                accept_stop_time_s: w.stop_time_s,
            },
        )
    }
}

impl StepSegment {
    /// The accepted samples lie within the first `n`, and there is at least one.
    pub open spec fn wf(self, n: nat) -> bool {
        self.accept_start_idx < self.accept_end_idx <= n
    }
}

/// Finds the accepted samples of a candidate.
pub fn accept_samples(times: &[Real], c: StepCandidate, w: AcceptWindow) -> (r: Option<StepSegment>)
    requires
        c.wf(times@.len()),
    ensures
        r == segment(times@, c, w),
        r matches Some(s) ==> s.wf(times@.len()) && c.start_idx <= s.accept_start_idx
            && s.accept_end_idx <= c.end_idx,
{
    let mut start: usize = c.start_idx;
    while start < c.end_idx && !w.start_time_s.at_most(times[start])
        invariant
            c.start_idx <= start <= c.end_idx <= times@.len(),
            first_from(times@, c.start_idx as int, c.end_idx as int, w.start_time_s) == first_from(
                times@,
                start as int,
                c.end_idx as int,
                w.start_time_s,
            ),
        decreases c.end_idx - start,
    {
        start = start + 1;
    }
    if start == c.end_idx {
        start = c.start_idx;
    }
    assert(start == accept_start(times@, c, w));
    let mut end: usize = start;
    while end < c.end_idx && !w.stop_time_s.less(times[end])
        invariant
            start <= end <= c.end_idx <= times@.len(),
            first_after(times@, start as int, c.end_idx as int, w.stop_time_s) == first_after(
                times@,
                end as int,
                c.end_idx as int,
                w.stop_time_s,
            ),
        decreases c.end_idx - end,
    {
        end = end + 1;
    }
    assert(end == accept_end(times@, c, w));
    if end <= start {
        None
    } else {
        Some(
            StepSegment {
                reference_a: c.reference_a,
                accept_start_idx: start,
                accept_end_idx: end,
                start_time_s: c.start_time_s,
                stop_time_s: c.stop_time_s,
                accept_start_time_s: w.start_time_s,
                accept_stop_time_s: w.stop_time_s,
            },
        )
    }
}

/// The segments of the candidates. A candidate without a window is too short.
pub open spec fn segments(
    times: Seq<Real>,
    cs: Seq<StepCandidate>,
    ws: Seq<Option<AcceptWindow>>,
) -> Seq<StepSegment>
    decreases cs.len(),
{
    if cs.len() == 0 {
        Seq::empty()
    } else {
        let n = cs.len() - 1;
        let before = segments(times, cs.drop_last(), ws.take(n));
        match ws[n] {
            None => before,
            Some(w) => match segment(times, cs[n], w) {
                Some(s) => before.push(s),
                None => before,
            },
        }
    }
}

/// The message where a run has no segments.
pub open spec fn no_segments_message(channel: CalibrationChannel) -> Seq<char> {
    match channel.kind {
        CalibrationKind::Current4To20 => "No stable 0/5/10/15/20 mA steps found for "@
            + channel.label@ + " using +/- 1.500 mA tolerance and 2.5 s minimum duration"@,
        CalibrationKind::Rtd => "No stable RTD temperature holds found for "@ + channel.label@
            + " using +/- 5.0 K tolerance and 0.5 s minimum duration"@,
        CalibrationKind::Thermocouple => "No stable thermocouple temperature holds found for "@
            + channel.label@ + " using +/- 5.0 K tolerance and 1.0 s minimum duration"@,
        CalibrationKind::Voltage => "No manual voltage reference holds found for "@
            + channel.label@
            + ". The CSV must contain reference_a values from the voltage hold prompts."@,
    }
}

/// The message where a run has no segments.
pub fn no_segments_error(channel: CalibrationChannel) -> (s: String)
    ensures
        s@ == no_segments_message(channel),
{
    let (before, after) = match channel.kind {
        CalibrationKind::Current4To20 => (
            "No stable 0/5/10/15/20 mA steps found for ",
            " using +/- 1.500 mA tolerance and 2.5 s minimum duration",
        ),
        CalibrationKind::Rtd => (
            "No stable RTD temperature holds found for ",
            " using +/- 5.0 K tolerance and 0.5 s minimum duration",
        ),
        CalibrationKind::Thermocouple => (
            "No stable thermocouple temperature holds found for ",
            " using +/- 5.0 K tolerance and 1.0 s minimum duration",
        ),
        CalibrationKind::Voltage => (
            "No manual voltage reference holds found for ",
            ". The CSV must contain reference_a values from the voltage hold prompts.",
        ),
    };
    let mut s = before.to_owned();
    s.push_str(channel.label);
    s.push_str(after);
    s
}

/// The segments of a run, given its holds and for each the window of its
/// accepted samples, or none where the hold is too short. No segment is an error.
pub fn detect_step_segments(
    channel: CalibrationChannel,
    times: &[Real],
    cs: &[StepCandidate],
    ws: &[Option<AcceptWindow>],
) -> (r: Result<Vec<StepSegment>, String>)
    requires
        ws@.len() == cs@.len(),
        forall|k: int| 0 <= k < cs@.len() ==> (#[trigger] cs@[k]).wf(times@.len()),
    ensures
        match r {
            Ok(v) => {
                &&& v@ == segments(times@, cs@, ws@)
                &&& v@.len() > 0
                &&& forall|k: int| 0 <= k < v@.len() ==> (#[trigger] v@[k]).wf(times@.len())
            },
            Err(e) => segments(times@, cs@, ws@).len() == 0 && e@ == no_segments_message(channel),
        },
{
    let mut v: Vec<StepSegment> = Vec::new();
    let mut i: usize = 0;
    assert(cs@.take(0) =~= Seq::<StepCandidate>::empty());
    while i < cs.len()
        invariant
            i <= cs@.len(),
            ws@.len() == cs@.len(),
            forall|k: int| 0 <= k < cs@.len() ==> (#[trigger] cs@[k]).wf(times@.len()),
            v@ == segments(times@, cs@.take(i as int), ws@.take(i as int)),
            forall|k: int| 0 <= k < v@.len() ==> (#[trigger] v@[k]).wf(times@.len()),
        decreases cs@.len() - i,
    {
        proof {
            assert(cs@.take(i + 1).drop_last() =~= cs@.take(i as int));
            assert(ws@.take(i + 1).take(i as int) =~= ws@.take(i as int));
        }
        if let Some(w) = ws[i] {
            if let Some(s) = accept_samples(times, cs[i], w) {
                v.push(s);
            }
        }
        i = i + 1;
    }
    assert(cs@.take(cs@.len() as int) =~= cs@);
    assert(ws@.take(ws@.len() as int) =~= ws@);
    if v.len() == 0 {
        Err(no_segments_error(channel))
    } else {
        Ok(v)
    }
}

/// All samples of a run hold its reference: each has one, and from the second
/// on it equals the one before.
pub proof fn law_run_holds_its_reference(references: Seq<Option<Real>>, i: int, k: int, j: int)
    requires
        0 <= i <= references.len(),
        references.len() <= usize::MAX,
        0 <= k < runs_from(references, i).len(),
        runs_from(references, i)[k].start_idx <= j < runs_from(references, i)[k].end_idx,
    ensures
        i <= runs_from(references, i)[k].start_idx,
        runs_from(references, i)[k].end_idx <= references.len(),
        references[j] is Some,
        references[runs_from(references, i)[k].start_idx as int] == Some(
            runs_from(references, i)[k].reference_a,
        ),
        j > runs_from(references, i)[k].start_idx ==> binary64::same_option(
            references[j],
            references[j - 1],
        ),
    decreases references.len() - i,
{
    if i < references.len() {
        let end = stretch_end(references, i + 1);
        lemma_stretch_end(references, i + 1);
        if references[i] is Some {
            if k == 0 {
                lemma_stretch_is_same(references, i + 1, j);
            } else {
                assert(runs_from(references, i)[k] == runs_from(references, end)[k - 1]);
                law_run_holds_its_reference(references, end, k - 1, j);
            }
        } else {
            law_run_holds_its_reference(references, end, k, j);
        }
    }
}

proof fn lemma_stretch_is_same(references: Seq<Option<Real>>, i: int, j: int)
    requires
        0 < i <= references.len(),
        i - 1 <= j < stretch_end(references, i),
        references[i - 1] is Some,
    ensures
        references[j] is Some,
        j >= i ==> binary64::same_option(references[j], references[j - 1]),
    decreases references.len() - i,
{
    if i < references.len() && binary64::same_option(references[i], references[i - 1]) && j >= i {
        lemma_stretch_is_same(references, i + 1, j);
    }
}

/// An accepted sample of a hold. The board temperature and the cold-junction
/// offset come together.
#[derive(Debug, Clone, Copy, PartialEq, Eq, Structural)]
pub struct AcceptedSample {
    pub time_s: Real,
    pub reference_a: Real,
    pub measured_a: Real,
    pub thermocouple_voltage_v: Option<Real>,
    pub cold_junction: Option<ColdJunction>,
}

/// The board's cold-junction temperature and its offset from the calibrator's.
#[derive(Debug, Clone, Copy, PartialEq, Eq, Structural)]
pub struct ColdJunction {
    pub board_temperature_k: Real,
    pub offset_k: Real,
}

/// Sample `i` of a capture as accepted under `reference`.
pub open spec fn sample_at(capture: ChannelCapture, reference: Real, i: int) -> AcceptedSample {
    AcceptedSample {
        time_s: capture.times_s@[i],
        reference_a: reference,
        measured_a: capture.measured_a@[i],
        thermocouple_voltage_v: if i < capture.thermocouple_voltage_v@.len() {
            Some(capture.thermocouple_voltage_v@[i])
        } else {
            None
        },
        cold_junction: if i < capture.board_cold_junction_temperature_k@.len()
            && capture.board_cold_junction_offset_k is Some {
            Some(
                ColdJunction {
                    board_temperature_k: capture.board_cold_junction_temperature_k@[i],
                    offset_k: capture.board_cold_junction_offset_k->0,
                },
            )
        } else {
            None
        },
    }
}

/// The accepted samples of one segment.
pub open spec fn segment_samples(capture: ChannelCapture, s: StepSegment) -> Seq<AcceptedSample> {
    Seq::new(
        (s.accept_end_idx - s.accept_start_idx) as nat,
        |k: int| sample_at(capture, s.reference_a, s.accept_start_idx + k),
    )
}

/// The accepted samples of all segments, one segment after the other.
pub open spec fn all_samples(capture: ChannelCapture, v: Seq<StepSegment>) -> Seq<AcceptedSample>
    decreases v.len(),
{
    if v.len() == 0 {
        Seq::empty()
    } else {
        all_samples(capture, v.drop_last()) + segment_samples(capture, v.last())
    }
}

/// The accepted samples of a capture.
pub fn accepted_error_samples(capture: &ChannelCapture, v: &[StepSegment]) -> (samples: Vec<
    AcceptedSample,
>)
    requires
        capture.times_s@.len() == capture.measured_a@.len(),
        forall|k: int| 0 <= k < v@.len() ==> (#[trigger] v@[k]).wf(capture.times_s@.len()),
    ensures
        samples@ == all_samples(*capture, v@),
{
    let mut samples: Vec<AcceptedSample> = Vec::new();
    let mut i: usize = 0;
    assert(v@.take(0) =~= Seq::<StepSegment>::empty());
    while i < v.len()
        invariant
            i <= v@.len(),
            capture.times_s@.len() == capture.measured_a@.len(),
            forall|k: int| 0 <= k < v@.len() ==> (#[trigger] v@[k]).wf(capture.times_s@.len()),
            samples@ == all_samples(*capture, v@.take(i as int)),
        decreases v@.len() - i,
    {
        let s = v[i];
        let ghost before = samples@;
        let mut idx: usize = s.accept_start_idx;
        while idx < s.accept_end_idx
            invariant
                s.accept_start_idx <= idx <= s.accept_end_idx <= capture.times_s@.len(),
                capture.times_s@.len() == capture.measured_a@.len(),
                samples@ == before + segment_samples(*capture, s).take(idx - s.accept_start_idx),
            decreases s.accept_end_idx - idx,
        {
            let thermocouple_voltage_v = if idx < capture.thermocouple_voltage_v.len() {
                Some(capture.thermocouple_voltage_v[idx])
            } else {
                None
            };
            let cold_junction = match capture.board_cold_junction_offset_k {
                Some(offset_k) => if idx < capture.board_cold_junction_temperature_k.len() {
                    Some(
                        ColdJunction {
                            board_temperature_k: capture.board_cold_junction_temperature_k[idx],
                            offset_k,
                        },
                    )
                } else {
                    None
                },
                None => None,
            };
            samples.push(
                AcceptedSample {
                    time_s: capture.times_s[idx],
                    reference_a: s.reference_a,
                    measured_a: capture.measured_a[idx],
                    thermocouple_voltage_v,
                    cold_junction,
                },
            );
            assert(samples@ =~= before + segment_samples(*capture, s).take(
                idx + 1 - s.accept_start_idx,
            ));
            idx = idx + 1;
        }
        proof {
            assert(v@.take(i + 1).drop_last() =~= v@.take(i as int));
            assert(segment_samples(*capture, s).take(s.accept_end_idx - s.accept_start_idx)
                =~= segment_samples(*capture, s));
        }
        i = i + 1;
    }
    assert(v@.take(v@.len() as int) =~= v@);
    samples
}

/// The range of accepted samples that belongs to one segment.
#[derive(Debug, Clone, Copy, PartialEq, Eq, Structural)]
pub struct SampleRange {
    pub start: usize,
    pub end: usize,
}

/// The number of accepted samples of all segments.
pub open spec fn sample_count(v: Seq<StepSegment>) -> int
    decreases v.len(),
{
    if v.len() == 0 {
        0
    } else {
        sample_count(v.drop_last()) + (v.last().accept_end_idx - v.last().accept_start_idx)
    }
}

/// The ranges in which the accepted samples of the segments stand, one behind
/// the other, where they are exactly `n` samples.
pub fn hold_ranges(v: &[StepSegment], n: usize) -> (r: Option<Vec<SampleRange>>)
    requires
        forall|k: int| 0 <= k < v@.len() ==> (#[trigger] v@[k]).accept_start_idx < v@[k].accept_end_idx,
    ensures
        r is Some <==> sample_count(v@) == n,
        r matches Some(ranges) ==> ranges@.len() == v@.len() && forall|k: int|
            0 <= k < ranges@.len() ==> (#[trigger] ranges@[k]).start == sample_count(v@.take(k))
                && ranges@[k].end == sample_count(v@.take(k + 1)),
{
    let mut ranges: Vec<SampleRange> = Vec::new();
    let mut offset: usize = 0;
    let mut i: usize = 0;
    assert(v@.take(0) =~= Seq::<StepSegment>::empty());
    while i < v.len()
        invariant
            i <= v@.len(),
            offset <= n,
            offset == sample_count(v@.take(i as int)),
            forall|k: int|
                0 <= k < v@.len() ==> (#[trigger] v@[k]).accept_start_idx < v@[k].accept_end_idx,
            ranges@.len() == i,
            forall|k: int|
                0 <= k < ranges@.len() ==> (#[trigger] ranges@[k]).start == sample_count(v@.take(k))
                    && ranges@[k].end == sample_count(v@.take(k + 1)),
        decreases v@.len() - i,
    {
        assert(v@.take(i + 1).drop_last() =~= v@.take(i as int));
        let count: usize = v[i].accept_end_idx - v[i].accept_start_idx;
        if count > n - offset {
            proof {
                lemma_sample_count_grows(v@, i + 1);
            }
            return None;
        }
        ranges.push(SampleRange { start: offset, end: offset + count });
        offset = offset + count;
        i = i + 1;
    }
    assert(v@.take(v@.len() as int) =~= v@);
    if offset == n {
        Some(ranges)
    } else {
        None
    }
}

proof fn lemma_sample_count_grows(v: Seq<StepSegment>, i: int)
    requires
        0 <= i <= v.len(),
        forall|k: int| 0 <= k < v.len() ==> (#[trigger] v[k]).accept_start_idx < v[k].accept_end_idx,
    ensures
        sample_count(v.take(i)) <= sample_count(v),
    decreases v.len() - i,
{
    if i < v.len() {
        lemma_sample_count_grows(v, i + 1);
        assert(v.take(i + 1).drop_last() =~= v.take(i));
    } else {
        assert(v.take(i) =~= v);
    }
}

/// The accepted samples are as many as the segments count, so that the samples
/// of each hold are found again in its range.
pub proof fn law_samples_stand_in_their_ranges(capture: ChannelCapture, v: Seq<StepSegment>, k: int)
    requires
        forall|i: int| 0 <= i < v.len() ==> (#[trigger] v[i]).accept_start_idx < v[i].accept_end_idx,
        0 <= k < v.len(),
    ensures
        all_samples(capture, v).len() == sample_count(v),
        0 <= sample_count(v.take(k)) <= sample_count(v.take(k + 1)) <= sample_count(v),
        all_samples(capture, v).subrange(sample_count(v.take(k)), sample_count(v.take(k + 1)))
            == segment_samples(capture, v[k]),
    decreases v.len(),
{
    let front = v.drop_last();
    assert(v.take(k + 1).drop_last() =~= v.take(k));
    lemma_all_samples_len(capture, v);
    lemma_all_samples_len(capture, v.take(k));
    lemma_all_samples_len(capture, front);
    lemma_sample_count_grows(v, k + 1);
    if k < front.len() {
        law_samples_stand_in_their_ranges(capture, front, k);
        assert(front.take(k) =~= v.take(k));
        assert(front.take(k + 1) =~= v.take(k + 1));
        assert(all_samples(capture, v).subrange(
            sample_count(v.take(k)),
            sample_count(v.take(k + 1)),
        ) =~= all_samples(capture, front).subrange(
            sample_count(v.take(k)),
            sample_count(v.take(k + 1)),
        ));
    } else {
        assert(v.take(k) =~= front);
        assert(v.take(k + 1) =~= v);
        assert(all_samples(capture, v).subrange(sample_count(front), sample_count(v))
            =~= segment_samples(capture, v[k]));
    }
}

proof fn lemma_all_samples_len(capture: ChannelCapture, v: Seq<StepSegment>)
    requires
        forall|i: int| 0 <= i < v.len() ==> (#[trigger] v[i]).accept_start_idx < v[i].accept_end_idx,
    ensures
        all_samples(capture, v).len() == sample_count(v),
        sample_count(v) >= 0,
    decreases v.len(),
{
    if v.len() > 0 {
        lemma_all_samples_len(capture, v.drop_last());
    }
}

/// The search for a first sample at or after a time: all samples before it are
/// earlier, and it is not.
proof fn lemma_first_from(times: Seq<Real>, i: int, end: int, time: Real)
    ensures
        match first_from(times, i, end, time) {
            Some(k) => i <= k < end && time.le(times[k]) && forall|j: int|
                i <= j < k ==> !time.le(#[trigger] times[j]),
            None => forall|j: int| i <= j < end ==> !time.le(#[trigger] times[j]),
        },
    decreases end - i,
{
    if i < end && !time.le(times[i]) {
        lemma_first_from(times, i + 1, end, time);
    }
}

/// The search for a first sample after a time: no sample before it is later, and it
/// is.
proof fn lemma_first_after(times: Seq<Real>, i: int, end: int, time: Real)
    ensures
        match first_after(times, i, end, time) {
            Some(k) => i <= k < end && time.lt(times[k]) && forall|j: int|
                i <= j < k ==> !time.lt(#[trigger] times[j]),
            None => forall|j: int| i <= j < end ==> !time.lt(#[trigger] times[j]),
        },
    decreases end - i,
{
    if i < end && !time.lt(times[i]) {
        lemma_first_after(times, i + 1, end, time);
    }
}

/// Where a sample `at` of a hold is within the window, the hold has a segment. Of
/// the samples of the hold exactly those are accepted whose time is from the start
/// to the end of the window, both included, and no other samples are. The times of
/// a hold increase.
pub proof fn law_samples_in_the_window_are_accepted(
    times: Seq<Real>,
    c: StepCandidate,
    w: AcceptWindow,
    at: int,
)
    requires
        c.wf(times.len()),
        times.len() <= usize::MAX,
        forall|i: int, j: int|
            c.start_idx <= i < j < c.end_idx ==> (#[trigger] times[i]).lt(#[trigger] times[j]),
        c.start_idx <= at < c.end_idx,
        w.start_time_s.le(times[at]),
        times[at].le(w.stop_time_s),
    ensures
        segment(times, c, w) is Some,
        forall|i: int|
            #![trigger times[i]]
            segment(times, c, w)->0.accept_start_idx <= i < segment(times, c, w)->0.accept_end_idx
                <==> c.start_idx <= i < c.end_idx && w.start_time_s.le(times[i]) && times[i].le(
                w.stop_time_s,
            ),
{
    let start = accept_start(times, c, w);
    let end = accept_end(times, c, w);
    lemma_first_from(times, c.start_idx as int, c.end_idx as int, w.start_time_s);
    lemma_first_after(times, start, c.end_idx as int, w.stop_time_s);
    assert(start <= at);
    assert(at < end) by {
        if end <= at {
            assert(w.stop_time_s.lt(times[end]));
            if end < at {
                assert(times[end].lt(times[at]));
            }
        }
    }
    assert forall|i: int|
        #![trigger times[i]]
        start <= i < end <==> c.start_idx <= i < c.end_idx && w.start_time_s.le(times[i])
            && times[i].le(w.stop_time_s) by {
        if start <= i < end {
            assert(start < i ==> times[start].lt(times[i]));
            assert(!w.stop_time_s.lt(times[i]));
            assert(i < c.end_idx);
            assert(!times[i].nan());
        }
        if c.start_idx <= i < c.end_idx && w.start_time_s.le(times[i]) && times[i].le(
            w.stop_time_s,
        ) {
            assert(start <= i);
            if end <= i {
                assert(w.stop_time_s.lt(times[end]));
                assert(end < i ==> times[end].lt(times[i]));
            }
        }
    }
}

/// Where no sample of a hold is within its window, which is not empty, the hold has
/// no segment, unless all of its samples are before the window: then all of them are
/// accepted.
pub proof fn law_holds_beside_their_window(times: Seq<Real>, c: StepCandidate, w: AcceptWindow)
    requires
        c.wf(times.len()),
        times.len() <= usize::MAX,
        w.start_time_s.le(w.stop_time_s),
        forall|i: int|
            c.start_idx <= i < c.end_idx ==> !(#[trigger] times[i]).nan() && (times[i].lt(
                w.start_time_s,
            ) || w.stop_time_s.lt(times[i])),
    ensures
        segment(times, c, w) is Some <==> forall|i: int|
            c.start_idx <= i < c.end_idx ==> (#[trigger] times[i]).lt(w.start_time_s),
        segment(times, c, w) matches Some(s) ==> s.accept_start_idx == c.start_idx
            && s.accept_end_idx == c.end_idx,
{
    let start = accept_start(times, c, w);
    lemma_first_from(times, c.start_idx as int, c.end_idx as int, w.start_time_s);
    lemma_first_after(times, start, c.end_idx as int, w.stop_time_s);
    match first_from(times, c.start_idx as int, c.end_idx as int, w.start_time_s) {
        Some(k) => {
            assert(!times[k].lt(w.start_time_s));
            assert(w.stop_time_s.lt(times[k]));
        },
        None => {
            assert forall|i: int| c.start_idx <= i < c.end_idx implies (#[trigger] times[i]).lt(
                w.start_time_s,
            ) by {
                assert(!w.start_time_s.le(times[i]));
            }
        },
    }
}

/// A segment carries the reference and the times of its hold and the times of its
/// window.
pub proof fn law_segment_is_of_its_hold(times: Seq<Real>, c: StepCandidate, w: AcceptWindow)
    ensures
        segment(times, c, w) matches Some(s) ==> {
            &&& s.reference_a == c.reference_a
            &&& s.start_time_s == c.start_time_s
            &&& s.stop_time_s == c.stop_time_s
            &&& s.accept_start_time_s == w.start_time_s
            &&& s.accept_stop_time_s == w.stop_time_s
        },
{
}

/// Each segment is that of a hold and its window.
pub proof fn law_segments_are_of_holds(
    times: Seq<Real>,
    cs: Seq<StepCandidate>,
    ws: Seq<Option<AcceptWindow>>,
    n: int,
)
    requires
        cs.len() == ws.len(),
        0 <= n < segments(times, cs, ws).len(),
    ensures
        exists|j: int|
            0 <= j < cs.len() && ws[j] is Some && #[trigger] segment(times, cs[j], ws[j]->0)
                == Some(segments(times, cs, ws)[n]),
    decreases cs.len(),
{
    let last = cs.len() - 1;
    let front = cs.drop_last();
    let before = segments(times, front, ws.take(last));
    let all = segments(times, cs, ws);
    if n < before.len() {
        law_segments_are_of_holds(times, front, ws.take(last), n);
        let j = choose|j: int|
            0 <= j < front.len() && ws.take(last)[j] is Some && #[trigger] segment(
                times,
                front[j],
                ws.take(last)[j]->0,
            ) == Some(before[n]);
        assert(segment(times, cs[j], ws[j]->0) == Some(all[n]));
    } else {
        assert(segment(times, cs[last], ws[last]->0) == Some(all[n]));
    }
}

/// Each hold with a window gives its segment, where it has one.
pub proof fn law_each_hold_gives_its_segment(
    times: Seq<Real>,
    cs: Seq<StepCandidate>,
    ws: Seq<Option<AcceptWindow>>,
    k: int,
)
    requires
        cs.len() == ws.len(),
        0 <= k < cs.len(),
    ensures
        ws[k] matches Some(w) ==> (segment(times, cs[k], w) matches Some(s) ==> segments(
            times,
            cs,
            ws,
        ).contains(s)),
    decreases cs.len(),
{
    let last = cs.len() - 1;
    let before = segments(times, cs.drop_last(), ws.take(last));
    let all = segments(times, cs, ws);
    if let Some(w) = ws[k] {
        if let Some(s) = segment(times, cs[k], w) {
            if k < last {
                law_each_hold_gives_its_segment(times, cs.drop_last(), ws.take(last), k);
                let i = choose|i: int| 0 <= i < before.len() && before[i] == s;
                assert(all[i] == s);
            } else {
                assert(all.last() == s);
            }
        }
    }
}

/// The segments keep the order of the holds: those of the first holds come first.
pub proof fn law_segments_keep_their_order(
    times: Seq<Real>,
    cs: Seq<StepCandidate>,
    ws: Seq<Option<AcceptWindow>>,
    k: int,
)
    requires
        cs.len() == ws.len(),
        0 <= k <= cs.len(),
    ensures
        segments(times, cs.take(k), ws.take(k)).is_prefix_of(segments(times, cs, ws)),
    decreases cs.len(),
{
    if k < cs.len() {
        let last = cs.len() - 1;
        law_segments_keep_their_order(times, cs.drop_last(), ws.take(last), k);
        assert(cs.drop_last().take(k) =~= cs.take(k));
        assert(ws.take(last).take(k) =~= ws.take(k));
        let all = segments(times, cs, ws);
        let before = segments(times, cs.drop_last(), ws.take(last));
        let first = segments(times, cs.take(k), ws.take(k));
        assert(first =~= all.take(first.len() as int)) by {
            assert(first =~= before.take(first.len() as int));
        }
    } else {
        assert(cs.take(k) =~= cs);
        assert(ws.take(k) =~= ws);
    }
}

/// A sample with a reference is in a run, together with all neighbours on its right
/// that have the same reference as the one before them: the run ends at the first
/// that has not.
pub proof fn law_each_referenced_sample_is_in_a_run(
    references: Seq<Option<Real>>,
    i: int,
    j: int,
) -> (k: int)
    requires
        0 <= i <= j < references.len(),
        references.len() <= usize::MAX,
        references[j] is Some,
    ensures
        0 <= k < runs_from(references, i).len(),
        runs_from(references, i)[k].start_idx <= j < runs_from(references, i)[k].end_idx,
        runs_from(references, i)[k].end_idx < references.len() ==> !binary64::same_option(
            references[runs_from(references, i)[k].end_idx as int],
            references[runs_from(references, i)[k].end_idx - 1],
        ),
        runs_from(references, i)[k].start_idx > i ==> !binary64::same_option(
            references[runs_from(references, i)[k].start_idx as int],
            references[runs_from(references, i)[k].start_idx - 1],
        ),
    decreases references.len() - i,
{
    let end = stretch_end(references, i + 1);
    lemma_stretch_end(references, i + 1);
    lemma_stretch_ends(references, i + 1);
    if j < end {
        lemma_references_stay(references, i + 1, j);
        0
    } else {
        let k = law_each_referenced_sample_is_in_a_run(references, end, j);
        law_run_holds_its_reference(references, end, k, j);
        if references[i] is Some {
            assert(runs_from(references, i)[k + 1] == runs_from(references, end)[k]);
            k + 1
        } else {
            k
        }
    }
}

proof fn lemma_stretch_ends(references: Seq<Option<Real>>, i: int)
    requires
        0 < i <= references.len(),
    ensures
        stretch_end(references, i) < references.len() ==> !binary64::same_option(
            references[stretch_end(references, i)],
            references[stretch_end(references, i) - 1],
        ),
    decreases references.len() - i,
{
    if i < references.len() && binary64::same_option(references[i], references[i - 1]) {
        lemma_stretch_ends(references, i + 1);
    }
}

/// In a stretch either all samples have a reference or none has.
proof fn lemma_references_stay(references: Seq<Option<Real>>, i: int, j: int)
    requires
        0 < i <= references.len(),
        i - 1 <= j < stretch_end(references, i),
    ensures
        references[j] is Some <==> references[i - 1] is Some,
    decreases references.len() - i,
{
    if i < references.len() && binary64::same_option(references[i], references[i - 1]) && j >= i {
        lemma_references_stay(references, i + 1, j);
    }
}

/// A run of two samples or more is a hold.
pub proof fn law_long_run_is_a_hold(times: Seq<Real>, runs: Seq<Run>, k: int)
    requires
        0 <= k < runs.len(),
    ensures
        runs[k].end_idx - runs[k].start_idx >= 2 ==> exists|m: int|
            0 <= m < candidates(times, runs).len() && {
                &&& (#[trigger] candidates(times, runs)[m]).start_idx == runs[k].start_idx
                &&& candidates(times, runs)[m].end_idx == runs[k].end_idx
            },
    decreases runs.len(),
{
    if runs[k].end_idx - runs[k].start_idx >= 2 {
        let all = candidates(times, runs);
        let before = candidates(times, runs.drop_last());
        if k < runs.len() - 1 {
            law_long_run_is_a_hold(times, runs.drop_last(), k);
            let m = choose|m: int|
                0 <= m < before.len() && {
                    &&& (#[trigger] before[m]).start_idx == runs.drop_last()[k].start_idx
                    &&& before[m].end_idx == runs.drop_last()[k].end_idx
                };
            assert(all[m] == before[m]);
        } else {
            assert(all[all.len() - 1] == candidate(times, runs.last()));
        }
    }
}

/// A hold is a run of two samples or more. It has the reference of the run and the
/// times of its first and its last sample.
pub proof fn law_hold_is_of_a_run(times: Seq<Real>, runs: Seq<Run>, n: int)
    requires
        0 <= n < candidates(times, runs).len(),
    ensures
        exists|j: int|
            0 <= j < runs.len() && {
                let c = candidates(times, runs)[n];
                &&& c.start_idx == (#[trigger] runs[j]).start_idx
                &&& c.end_idx == runs[j].end_idx
                &&& c.end_idx - c.start_idx >= 2
                &&& c.reference_a == runs[j].reference_a
                &&& c.start_time_s == times[runs[j].start_idx as int]
                &&& c.stop_time_s == times[runs[j].end_idx - 1]
            },
    decreases runs.len(),
{
    let before = candidates(times, runs.drop_last());
    if n < before.len() {
        law_hold_is_of_a_run(times, runs.drop_last(), n);
        let j = choose|j: int|
            0 <= j < runs.drop_last().len() && {
                let c = before[n];
                &&& c.start_idx == (#[trigger] runs.drop_last()[j]).start_idx
                &&& c.end_idx == runs.drop_last()[j].end_idx
                &&& c.end_idx - c.start_idx >= 2
                &&& c.reference_a == runs.drop_last()[j].reference_a
                &&& c.start_time_s == times[runs.drop_last()[j].start_idx as int]
                &&& c.stop_time_s == times[runs.drop_last()[j].end_idx - 1]
            };
        assert(runs.drop_last()[j] == runs[j]);
    } else {
        assert(runs[runs.len() - 1] == runs.last());
    }
}

/// The accepted samples of a segment are those of the capture from its first to its
/// last accepted index, in order: each has the time, the measurement and the
/// thermocouple values of the same sample and the reference of the segment.
pub proof fn law_segment_takes_its_samples(capture: ChannelCapture, s: StepSegment, i: int)
    requires
        s.accept_start_idx <= i < s.accept_end_idx,
    ensures
        segment_samples(capture, s).len() == s.accept_end_idx - s.accept_start_idx,
        ({
            let sample = segment_samples(capture, s)[i - s.accept_start_idx];
            &&& sample.time_s == capture.times_s@[i]
            &&& sample.measured_a == capture.measured_a@[i]
            &&& sample.reference_a == s.reference_a
            &&& sample.thermocouple_voltage_v is Some <==> i < capture.thermocouple_voltage_v@.len()
            &&& sample.thermocouple_voltage_v matches Some(x) ==> x
                == capture.thermocouple_voltage_v@[i]
            &&& sample.cold_junction is Some <==> i
                < capture.board_cold_junction_temperature_k@.len()
                && capture.board_cold_junction_offset_k is Some
            &&& sample.cold_junction matches Some(x) ==> x.board_temperature_k
                == capture.board_cold_junction_temperature_k@[i] && Some(x.offset_k)
                == capture.board_cold_junction_offset_k
        }),
{
}

} // verus!
