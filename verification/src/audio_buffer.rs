//! Re-segmentation of an irregularly chunked sample stream into analysis
//! windows of a fixed length, with the two policies that absorb a mismatch
//! between the speed of the producer and that of the consumer.

use vstd::prelude::*;

verus! {

/// Shortest window length accepted, in samples.
pub const MIN_RESOLUTION: usize = 32;

/// Longest window length accepted, in samples.
pub const MAX_RESOLUTION: usize = 1_048_576;

/// Window length used when none is chosen.
pub const DEFAULT_RESOLUTION: usize = 8192;

/// How the buffer cuts windows out of the stream.
#[derive(Clone, Copy, Debug, PartialEq, Eq, Structural)]
pub struct BufferOptions {
    /// Length of every window, in samples.
    pub resolution: usize,
    /// Drop the older backlog when more than one window is waiting.
    pub discard: bool,
    /// Reuse the tail of the last window when less than one window is waiting.
    pub overlap: bool,
}

/// The timing-mismatch behaviour selected by the two flags.
#[derive(Clone, Copy, Debug, PartialEq, Eq, Structural)]
pub enum Policy {
    /// Neither flag: disjoint windows, nothing dropped, nothing reused.
    Strict,
    /// Only `discard`.
    Discard,
    /// Only `overlap`.
    Overlap,
    /// Both flags.
    Both,
}

impl BufferOptions {
    /// The resolution lies within the accepted range.
    pub open spec fn wf(self) -> bool {
        MIN_RESOLUTION <= self.resolution <= MAX_RESOLUTION
    }

    /// The policy that the two flags select.
    pub open spec fn spec_policy(self) -> Policy {
        if self.discard && self.overlap {
            Policy::Both
        } else if self.discard {
            Policy::Discard
        } else if self.overlap {
            Policy::Overlap
        } else {
            Policy::Strict
        }
    }

    /// Options for the given window length, or `None` when the length is
    /// outside the accepted range.
    pub fn new(resolution: usize, discard: bool, overlap: bool) -> (r: Option<BufferOptions>)
        ensures
            r == if MIN_RESOLUTION <= resolution <= MAX_RESOLUTION {
                Some(BufferOptions { resolution, discard, overlap })
            } else {
                None
            },
    {
        if MIN_RESOLUTION <= resolution && resolution <= MAX_RESOLUTION {
            Some(BufferOptions { resolution, discard, overlap })
        } else {
            None
        }
    }

    /// Whether the resolution lies within the accepted range.
    pub fn is_valid(&self) -> (ok: bool)
        ensures
            ok == self.wf(),
    {
        MIN_RESOLUTION <= self.resolution && self.resolution <= MAX_RESOLUTION
    }

    /// The policy that the two flags select.
    pub fn policy(&self) -> (p: Policy)
        ensures
            p == self.spec_policy(),
    {
        if self.discard && self.overlap {
            Policy::Both
        } else if self.discard {
            Policy::Discard
        } else if self.overlap {
            Policy::Overlap
        } else {
            Policy::Strict
        }
    }
}

impl Policy {
    /// Whether an older backlog is dropped.
    pub open spec fn spec_discards(self) -> bool {
        self == Policy::Discard || self == Policy::Both
    }

    /// Whether the tail of the last window is reused.
    pub open spec fn spec_overlaps(self) -> bool {
        self == Policy::Overlap || self == Policy::Both
    }

    /// Whether an older backlog is dropped.
    pub fn discards(&self) -> (b: bool)
        ensures
            b == self.spec_discards(),
    {
        match self {
            Policy::Discard => true,
            Policy::Both => true,
            _ => false,
        }
    }

    /// Whether the tail of the last window is reused.
    pub fn overlaps(&self) -> (b: bool)
        ensures
            b == self.spec_overlaps(),
    {
        match self {
            Policy::Overlap => true,
            Policy::Both => true,
            _ => false,
        }
    }
}

impl Default for BufferOptions {
    fn default() -> (o: BufferOptions)
        ensures
            o == (BufferOptions { resolution: DEFAULT_RESOLUTION, discard: false, overlap: false }),
    {
        BufferOptions { resolution: DEFAULT_RESOLUTION, discard: false, overlap: false }
    }
}

/// What the buffer holds, as mathematical sequences.
pub struct BufferModel<T> {
    /// Samples that arrived and that no window has consumed yet, oldest first.
    pub pending: Seq<T>,
    /// The last window handed out, kept only while `overlap` is set.
    pub previous: Option<Seq<T>>,
}

/// A window as handed out, as mathematical values.
pub struct WindowModel<T> {
    /// The samples of the window, oldest first.
    pub samples: Seq<T>,
    /// How many leading samples repeat the tail of the window before.
    pub reused: nat,
    /// How many waiting samples were dropped to make this window the newest.
    pub discarded: nat,
    /// How many whole windows the dropped samples amount to.
    pub skipped: nat,
}

impl<T> BufferModel<T> {
    /// The buffer before anything arrived.
    pub open spec fn empty() -> Self {
        BufferModel { pending: Seq::empty(), previous: None }
    }

    /// The state is one that the given options can lead to.
    pub open spec fn wf(self, o: BufferOptions) -> bool {
        self.previous matches Some(p) ==> o.overlap && p.len() == o.resolution
    }

    /// The state after `chunk` arrived.
    pub open spec fn push(self, chunk: Seq<T>) -> Self {
        BufferModel { pending: self.pending + chunk, previous: self.previous }
    }

    /// A full window is waiting.
    pub open spec fn full(self, o: BufferOptions) -> bool {
        self.pending.len() >= o.resolution
    }

    /// A request for a window is served at once: a full window is waiting, or
    /// the tail of the last one may be reused.
    pub open spec fn ready(self, o: BufferOptions) -> bool {
        self.full(o) || (o.overlap && self.previous is Some)
    }

    /// The window that a request is served with, where `ready` holds.
    pub open spec fn window(self, o: BufferOptions) -> WindowModel<T> {
        let res = o.resolution as int;
        let len = self.pending.len() as int;
        if self.full(o) {
            if o.discard {
                WindowModel {
                    samples: self.pending.subrange(len - res, len),
                    reused: 0,
                    discarded: (len - res) as nat,
                    skipped: ((len - res) / res) as nat,
                }
            } else {
                WindowModel {
                    samples: self.pending.subrange(0, res),
                    reused: 0,
                    discarded: 0,
                    skipped: 0,
                }
            }
        } else {
            WindowModel {
                samples: self.previous.unwrap().subrange(len, res) + self.pending,
                reused: (res - len) as nat,
                discarded: 0,
                skipped: 0,
            }
        }
    }

    /// The state after a request was served, where `ready` holds.
    pub open spec fn after_window(self, o: BufferOptions) -> Self {
        let res = o.resolution as int;
        let len = self.pending.len() as int;
        BufferModel {
            pending: if self.full(o) && !o.discard {
                self.pending.subrange(res, len)
            } else {
                Seq::empty()
            },
            previous: if o.overlap {
                Some(self.window(o).samples)
            } else {
                None
            },
        }
    }
}

/// One analysis window, with what the policies did to produce it.
pub struct Window<T> {
    /// The samples of the window, oldest first.
    pub samples: Vec<T>,
    /// How many leading samples repeat the tail of the window before.
    pub reused: usize,
    /// How many waiting samples were dropped to make this window the newest.
    pub discarded: usize,
    /// How many whole windows the dropped samples amount to.
    pub skipped: usize,
}

impl<T> View for Window<T> {
    type V = WindowModel<T>;

    open spec fn view(&self) -> WindowModel<T> {
        WindowModel {
            samples: self.samples@,
            reused: self.reused as nat,
            discarded: self.discarded as nat,
            skipped: self.skipped as nat,
        }
    }
}

/// A copy of the elements of `src` from index `from` up to, not including, `to`.
pub fn copy_range<T: Copy>(src: &Vec<T>, from: usize, to: usize) -> (out: Vec<T>)
    requires
        from <= to <= src@.len(),
    ensures
        out@ == src@.subrange(from as int, to as int),
{
    let mut out: Vec<T> = Vec::new();
    let mut i: usize = from;
    while i < to
        invariant
            from <= i <= to <= src@.len(),
            out@ == src@.subrange(from as int, i as int),
        decreases to - i,
    {
        out.push(src[i]);
        i = i + 1;
    }
    out
}

/// Accumulates sample chunks of any length and hands out windows of exactly
/// `resolution` samples.
pub struct AudioBuffer<T> {
    options: BufferOptions,
    pending: Vec<T>,
    previous: Option<Vec<T>>,
}

impl<T> View for AudioBuffer<T> {
    type V = BufferModel<T>;

    closed spec fn view(&self) -> BufferModel<T> {
        BufferModel {
            pending: self.pending@,
            previous: match self.previous {
                Some(p) => Some(p@),
                None => None,
            },
        }
    }
}

impl<T: Copy> AudioBuffer<T> {
    /// The options that the buffer was made with.
    pub closed spec fn spec_options(&self) -> BufferOptions {
        self.options
    }

    /// The options are valid and the state is one they can lead to.
    pub open spec fn wf(&self) -> bool {
        self.spec_options().wf() && self@.wf(self.spec_options())
    }

    /// An empty buffer that cuts windows as `options` say.
    pub fn new(options: BufferOptions) -> (b: Self)
        requires
            options.wf(),
        ensures
            b.wf(),
            b.spec_options() == options,
            b@ == BufferModel::<T>::empty(),
    {
        AudioBuffer { options, pending: Vec::new(), previous: None }
    }

    /// The options that the buffer was made with.
    pub fn options(&self) -> (o: BufferOptions)
        ensures
            o == self.spec_options(),
    {
        self.options
    }

    /// The number of samples that wait for a window.
    pub fn backlog(&self) -> (n: usize)
        ensures
            n == self@.pending.len(),
    {
        self.pending.len()
    }

    /// Whether a request for a window would be served at once.
    pub fn is_ready(&self) -> (r: bool)
        ensures
            r == self@.ready(self.spec_options()),
    {
        self.pending.len() >= self.options.resolution || (self.options.overlap
            && self.previous.is_some())
    }

    /// Takes in a chunk of samples, of any length, behind those that wait.
    pub fn push(&mut self, chunk: Vec<T>)
        requires
            old(self).wf(),
        ensures
            final(self).wf(),
            final(self).spec_options() == old(self).spec_options(),
            final(self)@ == old(self)@.push(chunk@),
    {
        let mut chunk = chunk;
        self.pending.append(&mut chunk);
    }

    /// Hands out the next window, or `None` when the consumer has to wait for
    /// more samples.
    ///
    /// A full window that waits is handed out and consumed; with `discard`
    /// it is the newest one and the older backlog is dropped. When less than
    /// a window waits, `overlap` fills the window up from the tail of the one
    /// handed out before.
    pub fn next_window(&mut self) -> (w: Option<Window<T>>)
        requires
            old(self).wf(),
        ensures
            final(self).wf(),
            final(self).spec_options() == old(self).spec_options(),
            w is Some <==> old(self)@.ready(old(self).spec_options()),
            w matches Some(win) ==> {
                &&& win@ == old(self)@.window(old(self).spec_options())
                &&& win.samples@.len() == old(self).spec_options().resolution
                &&& final(self)@ == old(self)@.after_window(old(self).spec_options())
            },
            w is None ==> final(self)@ == old(self)@,
            old(self).spec_options().discard ==> final(self)@.pending.len() < old(
                self,
            ).spec_options().resolution,
    {
        let policy = self.options.policy();
        let res: usize = self.options.resolution;
        let len: usize = self.pending.len();
        if len >= res {
            let mut samples: Vec<T>;
            let discarded: usize;
            if policy.discards() {
                discarded = len - res;
                samples = self.pending.split_off(discarded);
                self.pending.clear();
            } else {
                discarded = 0;
                samples = self.pending.split_off(res);
                std::mem::swap(&mut samples, &mut self.pending);
            }
            if policy.overlaps() {
                self.previous = Some(copy_range(&samples, 0, res));
            }
            assert(samples@.subrange(0, res as int) == samples@);
            Some(Window { samples, reused: 0, discarded, skipped: discarded / res })
        } else if policy.overlaps() && self.previous.is_some() {
            let mut samples: Vec<T> = match &self.previous {
                Some(p) => copy_range(p, len, res),
                None => Vec::new(),
            };
            samples.append(&mut self.pending);
            self.previous = Some(copy_range(&samples, 0, res));
            assert(samples@.subrange(0, res as int) == samples@);
            Some(Window { samples, reused: res - len, discarded: 0, skipped: 0 })
        } else {
            None
        }
    }
}

} // verus!
