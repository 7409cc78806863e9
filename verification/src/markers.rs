//! Markers on a timeline, and their adjustment to a trimmed clip.

use vstd::prelude::*;

verus! {

/// A named point in time. `time` counts microseconds from the start of the
/// timeline that the marker belongs to.
#[derive(Debug)]
pub struct Marker {
    pub id: u32,
    pub time: i64,
    pub name: Option<String>,
}

/// What a [`Marker`] says, with the name as a sequence of characters.
pub struct MarkerView {
    pub id: u32,
    pub time: int,
    pub name: Option<Seq<char>>,
}

impl View for Marker {
    type V = MarkerView;

    open spec fn view(&self) -> MarkerView {
        MarkerView {
            id: self.id,
            time: self.time as int,
            name: match self.name {
                Some(n) => Some(n@),
                None => None,
            },
        }
    }
}

impl Clone for Marker {
    fn clone(&self) -> (r: Self)
        ensures
            r@ == self@,
    {
        let name = match &self.name {
            Some(n) => Some(n.clone()),
            None => None,
        };
        Marker { id: self.id, time: self.time, name }
    }
}

/// The views of a list of markers, in order.
pub open spec fn marker_views(ms: Seq<Marker>) -> Seq<MarkerView> {
    Seq::new(ms.len(), |i: int| ms[i]@)
}

/// Whether `time` lies in the window that starts at `start` and lasts
/// `duration`, both ends included. Without a duration the window has no end.
pub open spec fn in_window(time: int, start: int, duration: Option<int>) -> bool {
    &&& start <= time
    &&& match duration {
        Some(d) => time <= start + d,
        None => true,
    }
}

/// The marker `m` with its time counted from `start`.
pub open spec fn rebased(m: MarkerView, start: int) -> MarkerView {
    MarkerView { id: m.id, time: m.time - start, name: m.name }
}

/// The markers of `ms` that lie in the window, in their order, each with
/// its time counted from the start of the window.
pub open spec fn adjusted(ms: Seq<MarkerView>, start: int, duration: Option<int>) -> Seq<
    MarkerView,
>
    decreases ms.len(),
{
    if ms.len() == 0 {
        Seq::empty()
    } else {
        let rest = adjusted(ms.drop_last(), start, duration);
        if in_window(ms.last().time, start, duration) {
            rest.push(rebased(ms.last(), start))
        } else {
            rest
        }
    }
}

/// The start of the window of a trim: zero where no start is given.
pub open spec fn window_start(trim_start: Option<u64>) -> int {
    match trim_start {
        Some(s) => s as int,
        None => 0,
    }
}

/// The length of the window of a trim, if it has an end.
pub open spec fn window_duration(trim_duration: Option<u64>) -> Option<int> {
    match trim_duration {
        Some(d) => Some(d as int),
        None => None,
    }
}

/// Every adjusted marker lies between zero and the length of the window.
pub proof fn lemma_adjusted_within_window(
    ms: Seq<MarkerView>,
    start: int,
    duration: Option<int>,
)
    ensures
        adjusted(ms, start, duration).len() <= ms.len(),
        forall|j: int|
            0 <= j < adjusted(ms, start, duration).len() ==> 0 <= (#[trigger] adjusted(
                ms,
                start,
                duration,
            )[j]).time,
        forall|j: int|
            0 <= j < adjusted(ms, start, duration).len() && duration is Some ==> (#[trigger] adjusted(
                ms,
                start,
                duration,
            )[j]).time <= duration->0,
    decreases ms.len(),
{
    if ms.len() > 0 {
        lemma_adjusted_within_window(ms.drop_last(), start, duration);
    }
}

/// A marker in the window is kept, with its time counted from the start of
/// the window. In particular a marker exactly at the end of the window is
/// kept, at the length of the window.
pub proof fn lemma_marker_in_window_kept(
    ms: Seq<MarkerView>,
    start: int,
    duration: Option<int>,
    i: int,
)
    requires
        0 <= i < ms.len(),
        in_window(ms[i].time, start, duration),
    ensures
        adjusted(ms, start, duration).contains(rebased(ms[i], start)),
        duration is Some && ms[i].time == start + duration->0 ==> rebased(ms[i], start).time
            == duration->0,
    decreases ms.len(),
{
    let out = adjusted(ms, start, duration);
    if i == ms.len() - 1 {
        assert(out.last() == rebased(ms[i], start));
    } else {
        lemma_marker_in_window_kept(ms.drop_last(), start, duration, i);
        let rest = adjusted(ms.drop_last(), start, duration);
        let j = choose|j: int| 0 <= j < rest.len() && rest[j] == rebased(ms[i], start);
        assert(out[j] == rebased(ms[i], start));
    }
}

/// Every adjusted marker comes from a marker in the window: one before the
/// start of the window, or after its end, is dropped.
pub proof fn lemma_marker_outside_window_dropped(
    ms: Seq<MarkerView>,
    start: int,
    duration: Option<int>,
    j: int,
)
    requires
        0 <= j < adjusted(ms, start, duration).len(),
    ensures
        exists|i: int|
            0 <= i < ms.len() && in_window((#[trigger] ms[i]).time, start, duration) && adjusted(
                ms,
                start,
                duration,
            )[j] == rebased(ms[i], start),
    decreases ms.len(),
{
    let out = adjusted(ms, start, duration);
    let rest = adjusted(ms.drop_last(), start, duration);
    if in_window(ms.last().time, start, duration) && j == out.len() - 1 {
        let i = ms.len() - 1;
        assert(in_window(ms[i].time, start, duration) && out[j] == rebased(ms[i], start));
    } else {
        lemma_marker_outside_window_dropped(ms.drop_last(), start, duration, j);
        let i = choose|i: int|
            0 <= i < ms.drop_last().len() && in_window(
                (#[trigger] ms.drop_last()[i]).time,
                start,
                duration,
            ) && rest[j] == rebased(ms.drop_last()[i], start);
        assert(in_window(ms[i].time, start, duration) && out[j] == rebased(ms[i], start));
    }
}

/// Maps markers into the timeline of a trimmed clip: those outside the
/// window are left out, the others keep their order and count their time
/// from the start of the window. The input is not changed.
pub fn adjust_markers_for_trim(
    markers: &Vec<Marker>,
    trim_start: Option<u64>,
    trim_duration: Option<u64>,
) -> (out: Vec<Marker>)
    ensures
        marker_views(out@) == adjusted(
            marker_views(markers@),
            window_start(trim_start),
            window_duration(trim_duration),
        ),
        forall|j: int| 0 <= j < out.len() ==> 0 <= (#[trigger] out[j]).time,
        forall|j: int|
            0 <= j < out.len() && trim_duration is Some ==> (#[trigger] out[j]).time
                <= trim_duration->0,
{
    let start: u64 = match trim_start {
        Some(s) => s,
        None => 0,
    };
    let ghost all = marker_views(markers@);
    let ghost gstart = window_start(trim_start);
    let ghost gdur = window_duration(trim_duration);
    let mut out: Vec<Marker> = Vec::new();
    let mut i: usize = 0;
    assert(all.take(0) =~= Seq::<MarkerView>::empty());
    assert(marker_views(out@) =~= Seq::<MarkerView>::empty());
    while i < markers.len()
        invariant
            i <= markers.len(),
            all == marker_views(markers@),
            gstart == window_start(trim_start),
            gdur == window_duration(trim_duration),
            start == gstart,
            marker_views(out@) == adjusted(all.take(i as int), gstart, gdur),
        decreases markers.len() - i,
    {
        let m = &markers[i];
        proof {
            assert(all.take(i + 1).drop_last() =~= all.take(i as int));
            assert(all.take(i + 1).last() == m@);
        }
        let kept = m.time >= 0 && (m.time as u64) >= start && match trim_duration {
            Some(d) => (m.time as u64) - start <= d,
            None => true,
        };
        assert(kept == in_window(m@.time, gstart, gdur));
        if kept {
            let moved = Marker {
                id: m.id,
                time: ((m.time as u64) - start) as i64,
                name: match &m.name {
                    Some(n) => Some(n.clone()),
                    None => None,
                },
            };
            assert(moved@ == rebased(m@, gstart));
            let ghost before = marker_views(out@);
            out.push(moved);
            assert(marker_views(out@) =~= before.push(rebased(m@, gstart)));
        }
        i += 1;
    }
    proof {
        assert(all.take(markers.len() as int) =~= all);
        lemma_adjusted_within_window(all, gstart, gdur);
        assert forall|j: int| 0 <= j < out.len() implies 0 <= (#[trigger] out[j]).time by {
            assert(marker_views(out@)[j] == out[j]@);
        }
        assert forall|j: int| 0 <= j < out.len() && trim_duration is Some implies (
        #[trigger] out[j]).time <= trim_duration->0 by {
            assert(marker_views(out@)[j] == out[j]@);
        }
    }
    out
}

} // verus!
