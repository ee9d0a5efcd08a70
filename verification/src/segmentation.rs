//! What holds of every history of a buffer: any interleaving of arriving
//! chunks and requests for a window.

use crate::audio_buffer::{BufferModel, BufferOptions, WindowModel};
use crate::scores::{lemma_frames_gap_free, spec_frame_index};
use vstd::prelude::*;

verus! {

/// One step in the life of a buffer.
pub enum Event<T> {
    /// A chunk of samples arrives.
    Push(Seq<T>),
    /// The consumer asks for a window.
    Take,
}

/// Where a history has led: the buffer's state and the windows handed out.
pub struct Run<T> {
    /// The state of the buffer after the last event.
    pub state: BufferModel<T>,
    /// The windows handed out so far, in order.
    pub windows: Seq<WindowModel<T>>,
}

/// The outcome of `events`, applied in order to an empty buffer. A request
/// that cannot be served leaves everything as it is.
pub open spec fn run<T>(o: BufferOptions, events: Seq<Event<T>>) -> Run<T>
    decreases events.len(),
{
    if events.len() == 0 {
        Run { state: BufferModel::empty(), windows: Seq::empty() }
    } else {
        let before = run(o, events.drop_last());
        match events.last() {
            Event::Push(chunk) => Run { state: before.state.push(chunk), windows: before.windows },
            Event::Take => if before.state.ready(o) {
                Run {
                    state: before.state.after_window(o),
                    windows: before.windows.push(before.state.window(o)),
                }
            } else {
                before
            },
        }
    }
}

/// All samples that arrived during `events`, in order of arrival.
pub open spec fn pushed<T>(events: Seq<Event<T>>) -> Seq<T>
    decreases events.len(),
{
    if events.len() == 0 {
        Seq::empty()
    } else {
        match events.last() {
            Event::Push(chunk) => pushed(events.drop_last()) + chunk,
            Event::Take => pushed(events.drop_last()),
        }
    }
}

/// Every history leads to a well-formed state, and every window handed out
/// has exactly `resolution` samples.
pub proof fn lemma_run_wf<T>(o: BufferOptions, events: Seq<Event<T>>)
    requires
        o.wf(),
    ensures
        run(o, events).state.wf(o),
        forall|i: int|
            0 <= i < run(o, events).windows.len() ==> (#[trigger] run(o, events).windows[i]).samples.len()
                == o.resolution,
    decreases events.len(),
{
    if events.len() > 0 {
        lemma_run_wf(o, events.drop_last());
    }
}

/// Slice `i` of `k` slices of length `res` lies within the first `k * res`
/// positions, and ends where slice `i + 1` begins.
proof fn lemma_slice_bounds(i: int, k: int, res: int)
    by (nonlinear_arith)
    requires
        0 <= i < k,
        0 <= res,
    ensures
        0 <= i * res <= (i + 1) * res <= k * res,
        (i + 1) * res == i * res + res,
{
}

/// Without `discard` and `overlap` the windows are the consecutive, disjoint
/// slices of the stream: window `i` holds the samples from `i * resolution`
/// up to `(i + 1) * resolution`, nothing is dropped or repeated, and what
/// waits in the buffer is the rest of the stream.
pub proof fn lemma_strict_segmentation<T>(o: BufferOptions, events: Seq<Event<T>>)
    requires
        o.wf(),
        !o.discard,
        !o.overlap,
    ensures
        run(o, events).windows.len() * o.resolution + run(o, events).state.pending.len() == pushed(
            events,
        ).len(),
        run(o, events).state.pending == pushed(events).subrange(
            run(o, events).windows.len() * o.resolution,
            pushed(events).len() as int,
        ),
        forall|i: int|
            0 <= i < run(o, events).windows.len() ==> (#[trigger] run(o, events).windows[i])
                == (WindowModel {
                samples: pushed(events).subrange(i * o.resolution, (i + 1) * o.resolution),
                reused: 0,
                discarded: 0,
                skipped: 0,
            }),
    decreases events.len(),
{
    let res = o.resolution as int;
    if events.len() == 0 {
        assert(run(o, events).windows.len() * res == 0) by (nonlinear_arith)
            requires
                run(o, events).windows.len() == 0,
        ;
    } else {
        let earlier = events.drop_last();
        lemma_strict_segmentation(o, earlier);
        let before = run(o, earlier);
        let k = before.windows.len() as int;
        let stream = pushed(earlier);
        assert((k + 1) * res == k * res + res) by (nonlinear_arith);
        assert(0 <= k * res) by (nonlinear_arith)
            requires
                0 <= k,
                0 <= res,
        ;
        match events.last() {
            Event::Push(chunk) => {
                let now = pushed(events);
                assert(now == stream + chunk);
                assert(run(o, events).state.pending == now.subrange(k * res, now.len() as int));
                assert forall|i: int| 0 <= i < k implies #[trigger] now.subrange(
                    i * res,
                    (i + 1) * res,
                ) == stream.subrange(i * res, (i + 1) * res) by {
                    lemma_slice_bounds(i, k, res);
                }
            },
            Event::Take => {
                if before.state.ready(o) {
                    let pending = before.state.pending;
                    assert(pending.subrange(0, res) == stream.subrange(k * res, (k + 1) * res));
                    assert(pending.subrange(res, pending.len() as int) == stream.subrange(
                        (k + 1) * res,
                        stream.len() as int,
                    ));
                }
            },
        }
    }
}

/// The samples of `windows`, one window after the other.
pub open spec fn joined<T>(windows: Seq<WindowModel<T>>) -> Seq<T>
    decreases windows.len(),
{
    if windows.len() == 0 {
        Seq::empty()
    } else {
        joined(windows.drop_last()) + windows.last().samples
    }
}

/// Without `discard` and `overlap` the windows handed out, put end to end and
/// followed by what still waits, are the stream as it arrived.
pub proof fn lemma_strict_windows_rebuild_stream<T>(o: BufferOptions, events: Seq<Event<T>>)
    requires
        o.wf(),
        !o.discard,
        !o.overlap,
    ensures
        joined(run(o, events).windows) + run(o, events).state.pending == pushed(events),
    decreases events.len(),
{
    if events.len() > 0 {
        let earlier = events.drop_last();
        lemma_strict_windows_rebuild_stream(o, earlier);
        let before = run(o, earlier);
        let res = o.resolution as int;
        match events.last() {
            Event::Push(chunk) => {
                assert(joined(before.windows) + (before.state.pending + chunk) == (joined(
                    before.windows,
                ) + before.state.pending) + chunk);
            },
            Event::Take => {
                if before.state.ready(o) {
                    let pending = before.state.pending;
                    let window = before.state.window(o);
                    assert(before.windows.push(window).drop_last() == before.windows);
                    assert(pending == pending.subrange(0, res) + pending.subrange(
                        res,
                        pending.len() as int,
                    ));
                    assert((joined(before.windows) + pending.subrange(0, res)) + pending.subrange(
                        res,
                        pending.len() as int,
                    ) == joined(before.windows) + (pending.subrange(0, res) + pending.subrange(
                        res,
                        pending.len() as int,
                    )));
                }
            },
        }
    }
}

/// Without `discard` and `overlap`, a stream of exactly `n` windows' worth of
/// samples, cut into chunks in any way, gives `n` windows: at every moment
/// the windows handed out and the full windows that still wait are `n`
/// together, and once no full window waits, `n` have been handed out and
/// nothing is left behind.
pub proof fn lemma_strict_window_count<T>(o: BufferOptions, events: Seq<Event<T>>, n: nat)
    requires
        o.wf(),
        !o.discard,
        !o.overlap,
        pushed(events).len() == n * o.resolution,
    ensures
        run(o, events).windows.len() + run(o, events).state.pending.len() / (o.resolution as nat)
            == n,
        !run(o, events).state.full(o) ==> run(o, events).windows.len() == n && run(
            o,
            events,
        ).state.pending.len() == 0,
{
    lemma_strict_segmentation(o, events);
    let k = run(o, events).windows.len() as int;
    let rest = run(o, events).state.pending.len() as int;
    let res = o.resolution as int;
    vstd::arithmetic::div_mod::lemma_fundamental_div_mod(rest, res);
    let q = rest / res;
    let r = rest % res;
    let d = k + q - n;
    assert(d * res == -r) by (nonlinear_arith)
        requires
            k * res + rest == n * res,
            rest == res * q + r,
            d == k + q - n,
    ;
    assert(d == 0) by (nonlinear_arith)
        requires
            d * res == -r,
            0 <= r < res,
    ;
    if rest < res {
        vstd::arithmetic::div_mod::lemma_basic_div(rest, res);
    }
}

/// With `discard`, less than one window waits after every request, however
/// much arrived before it.
pub proof fn lemma_discard_bounds_backlog<T>(o: BufferOptions, events: Seq<Event<T>>)
    requires
        o.wf(),
        o.discard,
        events.len() > 0,
        events.last() is Take,
    ensures
        run(o, events).state.pending.len() < o.resolution,
{
}

/// With `discard`, the window handed out is the newest one: it ends with the
/// sample that arrived last.
pub proof fn lemma_discard_keeps_newest<T>(s: BufferModel<T>, o: BufferOptions)
    requires
        o.wf(),
        o.discard,
        s.full(o),
    ensures
        s.window(o).samples == s.pending.subrange(
            s.pending.len() - o.resolution,
            s.pending.len() as int,
        ),
        s.window(o).discarded + o.resolution == s.pending.len(),
        s.window(o).skipped * o.resolution <= s.window(o).discarded < (s.window(o).skipped + 1)
            * o.resolution,
        s.after_window(o).pending.len() == 0,
{
    let d = s.pending.len() - o.resolution;
    let res = o.resolution as int;
    assert((d / res) * res <= d < (d / res + 1) * res) by (nonlinear_arith)
        requires
            0 <= d,
            0 < res,
    ;
}

/// With `overlap`, once a window has been handed out every later request is
/// served at once, and the buffer remembers the window handed out last.
pub proof fn lemma_overlap_never_starves<T>(o: BufferOptions, events: Seq<Event<T>>)
    requires
        o.wf(),
        o.overlap,
        run(o, events).windows.len() > 0,
    ensures
        run(o, events).state.ready(o),
        run(o, events).state.previous == Some(run(o, events).windows.last().samples),
    decreases events.len(),
{
    if events.len() > 0 {
        let earlier = events.drop_last();
        if run(o, earlier).windows.len() > 0 {
            lemma_overlap_never_starves(o, earlier);
        }
    }
}

/// With `overlap`, a window that is filled up starts with the tail of the
/// window before, sample for sample, and ends with everything that waited.
pub proof fn lemma_overlap_reuses_tail<T>(s: BufferModel<T>, o: BufferOptions)
    requires
        o.wf(),
        s.wf(o),
        o.overlap,
        s.previous is Some,
        !s.full(o),
    ensures
        s.window(o).samples.len() == o.resolution,
        s.window(o).reused + s.pending.len() == o.resolution,
        s.window(o).samples.subrange(0, s.window(o).reused as int) == s.previous.unwrap().subrange(
            s.pending.len() as int,
            o.resolution as int,
        ),
        s.window(o).samples.subrange(s.window(o).reused as int, o.resolution as int) == s.pending,
        s.after_window(o).pending.len() == 0,
        s.after_window(o).previous == Some(s.window(o).samples),
{
}

/// Without `discard` no window is ever dropped, so the summaries of the
/// windows handed out are numbered without gaps.
pub proof fn lemma_no_discard_no_gaps<T>(o: BufferOptions, events: Seq<Event<T>>, i: int)
    requires
        o.wf(),
        !o.discard,
        0 <= i < run(o, events).windows.len(),
    ensures
        run(o, events).windows[i].skipped == 0,
        run(o, events).windows[i].discarded == 0,
        spec_frame_index(run(o, events).windows, i) == i,
{
    lemma_never_skips_without_discard(o, events);
    lemma_frames_gap_free(run(o, events).windows, i);
}

/// Without `discard` every window handed out reports that nothing was
/// dropped before it.
pub proof fn lemma_never_skips_without_discard<T>(o: BufferOptions, events: Seq<Event<T>>)
    requires
        o.wf(),
        !o.discard,
    ensures
        forall|j: int|
            0 <= j < run(o, events).windows.len() ==> (#[trigger] run(o, events).windows[j]).skipped
                == 0 && run(o, events).windows[j].discarded == 0,
    decreases events.len(),
{
    if events.len() > 0 {
        lemma_never_skips_without_discard(o, events.drop_last());
    }
}

} // verus!
