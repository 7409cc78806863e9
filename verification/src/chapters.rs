//! The chapter sidecar: markers in order of time, written as chapters that
//! each last until the next one begins.

use crate::markers::{marker_views, Marker, MarkerView};
use crate::text::{decimal, push_decimal};
use vstd::prelude::*;
use vstd::string::*;

verus! {

/// `sorted` with `m` put behind every marker that is not later than `m`.
pub open spec fn insert_by_time(sorted: Seq<MarkerView>, m: MarkerView) -> Seq<MarkerView>
    decreases sorted.len(),
{
    if sorted.len() == 0 {
        seq![m]
    } else if sorted.last().time <= m.time {
        sorted.push(m)
    } else {
        insert_by_time(sorted.drop_last(), m).push(sorted.last())
    }
}

/// The markers in order of time. Markers at the same time keep the order
/// they came in.
pub open spec fn sorted_by_time(ms: Seq<MarkerView>) -> Seq<MarkerView>
    decreases ms.len(),
{
    if ms.len() == 0 {
        Seq::empty()
    } else {
        insert_by_time(sorted_by_time(ms.drop_last()), ms.last())
    }
}

/// Whether the times of `ms` never go down.
pub open spec fn ordered_by_time(ms: Seq<MarkerView>) -> bool {
    forall|i: int, j: int| 0 <= i <= j < ms.len() ==> (#[trigger] ms[i]).time <= (#[trigger] ms[j]).time
}

/// A time in whole milliseconds. Times before zero count as zero.
pub open spec fn millis_of(time_us: int) -> nat {
    if time_us < 0 {
        0
    } else {
        (time_us / 1000) as nat
    }
}

/// The title of the chapter at position `index`: the marker's name, or
/// "Chapter" and the chapter's number, counted from one.
pub open spec fn chapter_title(m: MarkerView, index: nat) -> Seq<char> {
    match m.name {
        Some(n) => n,
        None => "Chapter "@ + decimal(index + 1),
    }
}

/// Where the chapter at position `index` ends, in milliseconds: where the
/// next one starts, or at the end of the clip for the last one.
pub open spec fn chapter_end(sorted: Seq<MarkerView>, index: int, total_us: nat) -> nat {
    if index + 1 < sorted.len() {
        millis_of(sorted[index + 1].time)
    } else {
        total_us / 1000
    }
}

/// One chapter of the sidecar.
pub open spec fn chapter_entry(start_ms: nat, end_ms: nat, title: Seq<char>) -> Seq<char> {
    "[CHAPTER]\n"@ + "TIMEBASE=1/1000\n"@ + "START="@ + decimal(start_ms) + "\n"@ + "END="@
        + decimal(end_ms) + "\n"@ + "title="@ + title + "\n\n"@
}

/// The first `count` chapters of the sidecar, one after the other.
pub open spec fn chapter_entries(sorted: Seq<MarkerView>, total_us: nat, count: nat) -> Seq<char>
    decreases count,
{
    if count == 0 {
        Seq::empty()
    } else {
        let i = (count - 1) as nat;
        chapter_entries(sorted, total_us, i) + chapter_entry(
            millis_of(sorted[i as int].time),
            chapter_end(sorted, i as int, total_us),
            chapter_title(sorted[i as int], i),
        )
    }
}

/// The whole sidecar for `ms` in a clip of `total_us` microseconds. Without
/// markers it is empty: no chapters were asked for.
pub open spec fn chapter_metadata(ms: Seq<MarkerView>, total_us: nat) -> Seq<char> {
    if ms.len() == 0 {
        Seq::empty()
    } else {
        ";FFMETADATA1\n"@ + chapter_entries(sorted_by_time(ms), total_us, ms.len())
    }
}

/// Inserting by time is inserting at the position behind the last marker
/// that is not later.
proof fn lemma_insert_position(sorted: Seq<MarkerView>, m: MarkerView, p: int)
    requires
        0 <= p <= sorted.len(),
        forall|k: int| p <= k < sorted.len() ==> (#[trigger] sorted[k]).time > m.time,
        p == 0 || sorted[p - 1].time <= m.time,
    ensures
        insert_by_time(sorted, m) == sorted.insert(p, m),
    decreases sorted.len(),
{
    if sorted.len() == 0 {
        assert(seq![m] =~= sorted.insert(p, m));
    } else if sorted.last().time <= m.time {
        assert(p == sorted.len()) by {
            if p < sorted.len() {
                assert(sorted[sorted.len() - 1].time > m.time);
            }
        }
        assert(sorted.push(m) =~= sorted.insert(p, m));
    } else {
        lemma_insert_position(sorted.drop_last(), m, p);
        assert(sorted.drop_last().insert(p, m).push(sorted.last()) =~= sorted.insert(p, m));
    }
}

/// Inserting a marker adds exactly that marker, and keeps the order.
pub proof fn lemma_insert_by_time(sorted: Seq<MarkerView>, m: MarkerView)
    requires
        ordered_by_time(sorted),
    ensures
        insert_by_time(sorted, m).len() == sorted.len() + 1,
        insert_by_time(sorted, m).to_multiset() == sorted.to_multiset().insert(m),
        ordered_by_time(insert_by_time(sorted, m)),
    decreases sorted.len(),
{
    broadcast use vstd::seq_lib::group_to_multiset_ensures;

    let out = insert_by_time(sorted, m);
    if sorted.len() == 0 {
        assert(sorted =~= Seq::empty());
        assert(out =~= Seq::<MarkerView>::empty().push(m));
    } else if sorted.last().time <= m.time {
        assert forall|i: int, j: int| 0 <= i <= j < out.len() implies (#[trigger] out[i]).time <= (
        #[trigger] out[j]).time by {
            if j == sorted.len() {
                if i < sorted.len() {
                    assert(sorted[i].time <= sorted[sorted.len() - 1].time);
                }
            } else {
                assert(sorted[i].time <= sorted[j].time);
            }
        }
    } else {
        let front = sorted.drop_last();
        assert forall|i: int, j: int| 0 <= i <= j < front.len() implies (#[trigger] front[i]).time
            <= (#[trigger] front[j]).time by {
            assert(sorted[i].time <= sorted[j].time);
        }
        lemma_insert_by_time(front, m);
        let inner = insert_by_time(front, m);
        assert(sorted =~= front.push(sorted.last()));
        assert(out.to_multiset() =~= sorted.to_multiset().insert(m));
        assert forall|k: int| 0 <= k < inner.len() implies (#[trigger] inner[k]).time
            <= sorted.last().time by {
            assert(inner.to_multiset().count(inner[k]) > 0);
            if inner[k] != m {
                assert(front.to_multiset().count(inner[k]) > 0);
                assert(front.contains(inner[k]));
                let q = choose|q: int| 0 <= q < front.len() && front[q] == inner[k];
                assert(sorted[q].time <= sorted[sorted.len() - 1].time);
            }
        }
        assert forall|i: int, j: int| 0 <= i <= j < out.len() implies (#[trigger] out[i]).time <= (
        #[trigger] out[j]).time by {
            if j < inner.len() {
                assert(inner[i].time <= inner[j].time);
            } else if i < inner.len() {
                assert(inner[i].time <= sorted.last().time);
            }
        }
    }
}

/// Sorting by time rearranges the markers, loses and adds none, and leaves
/// them in order of time.
pub proof fn lemma_sorted_by_time(ms: Seq<MarkerView>)
    ensures
        sorted_by_time(ms).len() == ms.len(),
        sorted_by_time(ms).to_multiset() == ms.to_multiset(),
        ordered_by_time(sorted_by_time(ms)),
    decreases ms.len(),
{
    broadcast use vstd::seq_lib::group_to_multiset_ensures;

    if ms.len() == 0 {
        assert(ms =~= Seq::empty());
    } else {
        lemma_sorted_by_time(ms.drop_last());
        lemma_insert_by_time(sorted_by_time(ms.drop_last()), ms.last());
        assert(ms =~= ms.drop_last().push(ms.last()));
    }
}

/// Markers that are already in order of time stay as they are.
pub proof fn lemma_sorted_keeps_order(ms: Seq<MarkerView>)
    requires
        ordered_by_time(ms),
    ensures
        sorted_by_time(ms) == ms,
    decreases ms.len(),
{
    if ms.len() == 0 {
        assert(ms =~= Seq::empty());
    } else {
        let front = ms.drop_last();
        assert forall|i: int, j: int| 0 <= i <= j < front.len() implies (#[trigger] front[i]).time
            <= (#[trigger] front[j]).time by {
            assert(ms[i].time <= ms[j].time);
        }
        lemma_sorted_keeps_order(front);
        if front.len() > 0 {
            assert(ms[front.len() - 1].time <= ms[ms.len() - 1].time);
        }
        assert(ms =~= front.push(ms.last()));
    }
}

/// The test for markers at the time `time`.
pub open spec fn at_time(time: int) -> spec_fn(MarkerView) -> bool {
    |m: MarkerView| m.time == time
}

/// Inserting a marker puts it behind the markers of its own time and
/// leaves the markers of every time in the order they had.
pub proof fn lemma_insert_is_stable(sorted: Seq<MarkerView>, m: MarkerView, time: int)
    ensures
        insert_by_time(sorted, m).filter(at_time(time)) == if m.time == time {
            sorted.filter(at_time(time)).push(m)
        } else {
            sorted.filter(at_time(time))
        },
    decreases sorted.len(),
{
    let test = at_time(time);
    if sorted.len() == 0 {
        assert(seq![m] =~= sorted.push(m));
        sorted.lemma_filter_push(m, test);
    } else if sorted.last().time <= m.time {
        sorted.lemma_filter_push(m, test);
    } else {
        let front = sorted.drop_last();
        lemma_insert_is_stable(front, m, time);
        insert_by_time(front, m).lemma_filter_push(sorted.last(), test);
        assert(sorted =~= front.push(sorted.last()));
        front.lemma_filter_push(sorted.last(), test);
    }
}

/// Sorting is stable: the markers of any one time come out in the order in
/// which they went in.
pub proof fn lemma_sorted_is_stable(ms: Seq<MarkerView>, time: int)
    ensures
        sorted_by_time(ms).filter(at_time(time)) == ms.filter(at_time(time)),
    decreases ms.len(),
{
    if ms.len() > 0 {
        lemma_sorted_is_stable(ms.drop_last(), time);
        lemma_insert_is_stable(sorted_by_time(ms.drop_last()), ms.last(), time);
        assert(ms =~= ms.drop_last().push(ms.last()));
        ms.drop_last().lemma_filter_push(ms.last(), at_time(time));
    } else {
        assert(sorted_by_time(ms) =~= ms);
    }
}

/// The positions of `markers` in order of time; equal times in order of
/// position.
fn order_by_time(markers: &Vec<Marker>) -> (order: Vec<usize>)
    ensures
        order.len() == markers.len(),
        forall|k: int| 0 <= k < order.len() ==> (#[trigger] order[k]) < markers.len(),
        Seq::new(order.len() as nat, |k: int| markers[order[k] as int]@) == sorted_by_time(
            marker_views(markers@),
        ),
{
    let ghost all = marker_views(markers@);
    let mut order: Vec<usize> = Vec::new();
    let mut i: usize = 0;
    assert(all.take(0) =~= Seq::<MarkerView>::empty());
    assert(Seq::new(order.len() as nat, |k: int| markers[order[k] as int]@) =~= sorted_by_time(
        all.take(0),
    ));
    while i < markers.len()
        invariant
            i <= markers.len(),
            all == marker_views(markers@),
            order.len() == i,
            forall|k: int| 0 <= k < order.len() ==> (#[trigger] order[k]) < markers.len(),
            Seq::new(order.len() as nat, |k: int| markers[order[k] as int]@) == sorted_by_time(
                all.take(i as int),
            ),
        decreases markers.len() - i,
    {
        let time = markers[i].time;
        let ghost before = Seq::new(order.len() as nat, |k: int| markers[order[k] as int]@);
        let mut p: usize = order.len();
        while p > 0 && markers[order[p - 1]].time > time
            invariant
                p <= order.len(),
                i < markers.len(),
                time == markers[i as int].time,
                forall|k: int| 0 <= k < order.len() ==> (#[trigger] order[k]) < markers.len(),
                before == Seq::new(order.len() as nat, |k: int| markers[order[k] as int]@),
                forall|k: int| p <= k < before.len() ==> (#[trigger] before[k]).time > time,
            decreases p,
        {
            p -= 1;
        }
        proof {
            assert(all.take(i + 1).drop_last() =~= all.take(i as int));
            assert(all.take(i + 1).last() == markers[i as int]@);
            lemma_insert_position(before, markers[i as int]@, p as int);
        }
        order.insert(p, i);
        assert(Seq::new(order.len() as nat, |k: int| markers[order[k] as int]@) =~= before.insert(
            p as int,
            markers[i as int]@,
        ));
        i += 1;
    }
    assert(all.take(markers.len() as int) =~= all);
    order
}

/// A time in whole milliseconds. Times before zero count as zero.
fn millis(time_us: i64) -> (ms: u64)
    ensures
        ms == millis_of(time_us as int),
{
    if time_us < 0 {
        0
    } else {
        (time_us / 1000) as u64
    }
}

/// Appends one chapter to the sidecar.
fn push_chapter(
    content: &mut String,
    start_ms: u64,
    end_ms: u64,
    name: &Option<String>,
    number: u64,
)
    requires
        number >= 1,
    ensures
        final(content)@ == old(content)@ + chapter_entry(
            start_ms as nat,
            end_ms as nat,
            chapter_title(
                MarkerView {
                    id: 0,
                    time: 0,
                    name: match *name {
                        Some(n) => Some(n@),
                        None => None,
                    },
                },
                (number - 1) as nat,
            ),
        ),
{
    let mut entry = String::from_str("[CHAPTER]\n");
    entry.append("TIMEBASE=1/1000\n");
    entry.append("START=");
    push_decimal(&mut entry, start_ms);
    entry.append("\n");
    entry.append("END=");
    push_decimal(&mut entry, end_ms);
    entry.append("\n");
    entry.append("title=");
    match name {
        Some(n) => {
            entry.append(n.as_str());
        },
        None => {
            let mut title = String::from_str("Chapter ");
            push_decimal(&mut title, number);
            entry.append(title.as_str());
        },
    }
    entry.append("\n\n");
    content.append(entry.as_str());
}

/// Writes the chapter sidecar for `markers` in a clip that lasts
/// `total_duration` microseconds. The marker times count from the start of
/// that clip.
///
/// The chapters come in order of time. Each starts at its marker and ends
/// where the next one starts; the last one ends with the clip. A marker
/// without a name gives a chapter titled by its number. Without markers the
/// sidecar is empty.
pub fn generate_chapter_metadata(markers: &Vec<Marker>, total_duration: u64) -> (content: String)
    ensures
        content@ == chapter_metadata(marker_views(markers@), total_duration as nat),
        markers.len() == 0 <==> content@.len() == 0,
{
    if markers.len() == 0 {
        return String::new();
    }
    let order = order_by_time(markers);
    let ghost sorted = sorted_by_time(marker_views(markers@));
    let mut content = String::from_str(";FFMETADATA1\n");
    let mut i: usize = 0;
    proof {
        reveal_strlit(";FFMETADATA1\n");
        assert(content@ =~= ";FFMETADATA1\n"@ + chapter_entries(sorted, total_duration as nat, 0));
    }
    while i < order.len()
        invariant
            i <= order.len(),
            order.len() == markers.len(),
            sorted.len() == order.len(),
            forall|k: int| 0 <= k < order.len() ==> (#[trigger] order[k]) < markers.len(),
            forall|k: int| 0 <= k < order.len() ==> sorted[k] == markers[order[k] as int]@,
            content@ == ";FFMETADATA1\n"@ + chapter_entries(
                sorted,
                total_duration as nat,
                i as nat,
            ),
        decreases order.len() - i,
    {
        let marker = &markers[order[i]];
        let start_ms = millis(marker.time);
        let end_ms = if i + 1 < order.len() {
            millis(markers[order[i + 1]].time)
        } else {
            total_duration / 1000
        };
        let ghost before = content@;
        push_chapter(&mut content, start_ms, end_ms, &marker.name, i as u64 + 1);
        proof {
            let entry = chapter_entry(
                millis_of(sorted[i as int].time),
                chapter_end(sorted, i as int, total_duration as nat),
                chapter_title(sorted[i as int], i as nat),
            );
            assert(content@ == before + entry);
            assert(before + entry =~= ";FFMETADATA1\n"@ + (chapter_entries(
                sorted,
                total_duration as nat,
                i as nat,
            ) + entry));
        }
        i += 1;
    }
    content
}

} // verus!
