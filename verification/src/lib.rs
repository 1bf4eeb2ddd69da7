//! Progress bars for loops, drawn as text: one line per bar, several bars
//! at a time.
//!
//! The library holds no terminal and no clock. A [`Registry`] keeps the
//! live bars; a [`Pbar`] is the handle of one of them; every operation takes
//! the registry and the current time, and gives back the [`Command`]s that
//! bring the screen up to date. [`tqdm`] wraps an iterator so that every
//! item it yields advances a bar, and the end of the sequence closes it.
//!
//! Times are microseconds on any clock that does not run backwards. Rates
//! are millionths of an item per second, smoothing factors are millionths.
//! A terminal size is columns by rows, or `None` where it cannot be
//! measured; then 80 by 24 is assumed.
//!
//! ```text
//! let mut registry = Registry::new();
//! let (mut bar, frame) = tqdm(&mut registry, 0..100, now(), size());
//! show(frame);
//! loop {
//!     let (item, frame) = bar.next(&mut registry, now(), size());
//!     show(frame);
//!     if item.is_none() {
//!         break;
//!     }
//! }
//! ```
//!
//! Several threads may share one registry behind a lock. A handle decides
//! by itself, in [`Pbar::update`], whether it is time to pass on what it
//! has gathered, so the lock is needed only when there is something to
//! write and to draw.

use vstd::prelude::*;
use vstd::std_specs::iter::IteratorSpec;

pub mod bar;
pub mod history;
pub mod rate;
pub mod record;
pub mod registry;
pub mod style;
pub mod terminal;
pub mod text;

pub use record::{Record, Setting};
pub use registry::Registry;
pub use style::{ConfigError, Style};
pub use terminal::Command;
pub use text::ftime;

use history::{step, Event};
use record::{RecordView, SettingView};
use registry::{lemma_updated_contains, RegistryView};
use terminal::{
    farewell, finalize, frame, render, resolve_size, resolved_size, shown, CommandView,
};

verus! {

/// The shortest time between two redraws of one bar, in microseconds: a
/// twenty-fourth of a second.
pub const MIN_INTERVAL: u64 = 41_667;

/// The fewest items between two redraws of one bar.
pub const MIN_ITERATIONS: usize = 1;

/// The handle of one bar: it gathers progress and passes it on to the
/// registry no more often than is useful to look at.
#[derive(Debug)]
pub struct Pbar {
    /// The id of the bar in the registry.
    id: usize,
    /// The earliest time of the next flush.
    next: u64,
    /// Items gathered since the last flush.
    step: usize,
    /// Refresh limits.
    mininterval: u64,
    miniters: usize,
    /// Set once the bar has been closed.
    closed: bool,
}

/// The state of a handle.
pub struct PbarView {
    /// The id of the bar that the handle stands for.
    pub id: usize,
    /// The earliest time of the next flush, in microseconds.
    pub next_flush_at: u64,
    /// Items reported since the last flush.
    pub pending: usize,
    /// The shortest time between two flushes, in microseconds.
    pub min_interval: u64,
    /// The fewest items that make a flush.
    pub min_iterations: usize,
    /// Whether the bar has been closed.
    pub closed: bool,
}

impl PbarView {
    /// A handle as it is created: nothing pending, the first flush due at
    /// once.
    pub open spec fn fresh(id: usize) -> PbarView {
        PbarView {
            id,
            next_flush_at: 0,
            pending: 0,
            min_interval: MIN_INTERVAL,
            min_iterations: MIN_ITERATIONS,
            closed: false,
        }
    }

    /// The pending count with `n` more items, held at `usize::MAX`.
    pub open spec fn gathered(self, n: usize) -> usize {
        if self.pending + n <= usize::MAX {
            (self.pending + n) as usize
        } else {
            usize::MAX
        }
    }

    /// Whether reporting `n` items at time `now` leads to a flush: the handle
    /// is open, enough items have come together, and enough time has passed.
    pub open spec fn due(self, n: usize, now: u64) -> bool {
        &&& !self.closed
        &&& self.gathered(n) >= self.min_iterations
        &&& now >= self.next_flush_at
    }

    /// What is flushed into the registry when `n` items are reported at time
    /// `now`: everything gathered, or nothing yet.
    pub open spec fn flushed(self, n: usize, now: u64) -> Option<usize> {
        if self.due(n, now) {
            Some(self.gathered(n))
        } else {
            None
        }
    }

    /// The handle after `n` items were reported at time `now`. A flush
    /// empties the pending count and sets the time of the next one; without
    /// a flush the items are kept pending. A closed handle stays as it is.
    pub open spec fn updated(self, n: usize, now: u64) -> PbarView {
        if self.closed {
            self
        } else if self.due(n, now) {
            PbarView {
                pending: 0,
                next_flush_at: if now + self.min_interval <= u64::MAX {
                    (now + self.min_interval) as u64
                } else {
                    u64::MAX
                },
                ..self
            }
        } else {
            PbarView { pending: self.gathered(n), ..self }
        }
    }

    /// The handle after it was closed; a closed handle stays as it is.
    pub open spec fn shut(self) -> PbarView {
        if self.closed {
            self
        } else {
            PbarView { pending: 0, closed: true, ..self }
        }
    }
}

impl View for Pbar {
    type V = PbarView;

    closed spec fn view(&self) -> PbarView {
        PbarView {
            id: self.id,
            next_flush_at: self.next,
            pending: self.step,
            min_interval: self.mininterval,
            min_iterations: self.miniters,
            closed: self.closed,
        }
    }
}

/// The registry after a bar was created at time `now`.
pub open spec fn created(registry: RegistryView, total: Option<usize>, now: u64) -> RegistryView {
    registry.inserted(RecordView::fresh(total, now))
}

/// The id of the handle that a creation gives out: the id of the new bar,
/// or, with the ids exhausted, `usize::MAX`, which no bar ever has.
pub open spec fn created_id(registry: RegistryView) -> usize {
    if registry.exhausted() {
        usize::MAX
    } else {
        registry.next_id
    }
}

/// The frame of all bars of a registry.
pub open spec fn full_frame(registry: RegistryView, now: u64, size: Option<(u16, u16)>) -> Seq<
    CommandView,
> {
    frame(
        registry.records(),
        now,
        resolved_size(size).0 as nat,
        resolved_size(size).1 as nat,
    )
}

/// The registry after a handle reported `n` items at time `now`.
pub open spec fn advanced(
    registry: RegistryView,
    handle: PbarView,
    n: usize,
    now: u64,
) -> RegistryView {
    match handle.flushed(n, now) {
        Some(delta) => registry.updated(handle.id, delta, now),
        None => registry,
    }
}

/// What is drawn when a handle reports `n` items at time `now`: a full
/// frame after a flush, nothing otherwise.
pub open spec fn advance_frame(
    registry: RegistryView,
    handle: PbarView,
    n: usize,
    now: u64,
    size: Option<(u16, u16)>,
) -> Seq<CommandView> {
    if handle.flushed(n, now) is Some {
        full_frame(advanced(registry, handle, n, now), now, size)
    } else {
        Seq::empty()
    }
}

/// The registry after a handle has flushed what it still holds: with items
/// pending, they are reported at time `now`; with none, nothing changes.
pub open spec fn settled(registry: RegistryView, handle: PbarView, now: u64) -> RegistryView {
    if handle.pending > 0 {
        registry.updated(handle.id, handle.pending, now)
    } else {
        registry
    }
}

/// The registry after a handle was closed at time `now`: what was pending
/// is flushed, and the bar is taken out. Closing a closed handle changes
/// nothing.
pub open spec fn closed(registry: RegistryView, handle: PbarView, now: u64) -> RegistryView {
    if handle.closed {
        registry
    } else {
        settled(registry, handle, now).removed(handle.id)
    }
}

/// What is drawn when a handle is closed at time `now`: the farewell of its
/// bar, if it had one, and the frame of the bars that remain. Closing a
/// closed handle draws nothing.
pub open spec fn close_frame(
    registry: RegistryView,
    handle: PbarView,
    now: u64,
    size: Option<(u16, u16)>,
) -> Seq<CommandView> {
    let after = closed(registry, handle, now);
    if handle.closed {
        Seq::empty()
    } else if registry.contains(handle.id) {
        farewell(
            settled(registry, handle, now).record(handle.id),
            after.bars.len(),
            now,
            resolved_size(size).0 as nat,
        ) + (if after.bars.len() == 0 {
            seq![CommandView::Flush]
        } else {
            full_frame(after, now, size)
        })
    } else {
        full_frame(after, now, size)
    }
}

/// Draws all live bars afresh, for use after other output has disturbed the
/// screen. `size` is the terminal's size in columns and rows, if it could
/// be measured.
pub fn refresh(registry: &Registry, now: u64, size: Option<(u16, u16)>) -> (commands: Vec<Command>)
    ensures
        shown(commands@) == full_frame(registry@, now, size),
{
    let (columns, rows) = resolve_size(size);
    let records = registry.snapshot_ordered();
    render(&records, now, columns, rows)
}

/// Creates a bar and returns its handle and the frame that shows it.
///
/// `total` is the number of items expected, if it is known. When the
/// registry has no id left, no bar is registered; the handle that comes
/// back is attached to nothing, and using it changes nothing.
pub fn pbar(
    registry: &mut Registry,
    total: Option<usize>,
    now: u64,
    size: Option<(u16, u16)>,
) -> (made: (Pbar, Vec<Command>))
    requires
        old(registry)@.wf(),
    ensures
        final(registry)@ == created(old(registry)@, total, now),
        final(registry)@.wf(),
        made.0@ == PbarView::fresh(created_id(old(registry)@)),
        shown(made.1@) == full_frame(final(registry)@, now, size),
{
    let id: usize = match registry.insert(Record::new(total, now)) {
        Some(id) => id,
        None => usize::MAX,
    };
    let commands = refresh(registry, now, size);
    (
        Pbar {
            id,
            next: 0,
            step: 0,
            mininterval: MIN_INTERVAL,
            miniters: MIN_ITERATIONS,
            closed: false,
        },
        commands,
    )
}

impl Pbar {
    /// The id of the bar in the registry.
    pub fn id(&self) -> (id: usize)
        ensures
            id == self@.id,
    {
        self.id
    }

    /// Whether the handle has been closed.
    pub fn is_closed(&self) -> (closed: bool)
        ensures
            closed == self@.closed,
    {
        self.closed
    }

    /// Sets the refresh limits: a flush takes at least `min_iterations`
    /// gathered items and comes no sooner than `min_interval` microseconds
    /// after the one before.
    pub fn throttle(self, min_iterations: usize, min_interval: u64) -> (handle: Pbar)
        ensures
            handle@ == (PbarView { min_iterations, min_interval, ..self@ }),
    {
        Pbar {
            id: self.id,
            next: self.next,
            step: self.step,
            mininterval: min_interval,
            miniters: min_iterations,
            closed: self.closed,
        }
    }

    /// Reports `n` newly processed items at time `now`, and decides whether
    /// it is time to flush.
    ///
    /// The items are added to those gathered since the last flush. If at
    /// least the minimum number has come together and the minimum interval
    /// has passed, all of them are returned to be written to the registry,
    /// the count starts again at zero, and the next flush is set one
    /// interval from `now`. Otherwise `None` comes back and the items stay
    /// pending.
    pub fn update(&mut self, n: usize, now: u64) -> (flush: Option<usize>)
        ensures
            final(self)@ == old(self)@.updated(n, now),
            flush == old(self)@.flushed(n, now),
    {
        if self.closed {
            return None;
        }
        let gathered: usize = if n <= usize::MAX - self.step {
            self.step + n
        } else {
            usize::MAX
        };
        if gathered >= self.miniters && now >= self.next {
            self.step = 0;
            self.next = if self.mininterval <= u64::MAX - now {
                now + self.mininterval
            } else {
                u64::MAX
            };
            Some(gathered)
        } else {
            self.step = gathered;
            None
        }
    }

    /// Reports `n` newly processed items at time `now`; when a flush is due,
    /// writes what was gathered to the bar's record and draws a full frame.
    pub fn advance(
        &mut self,
        registry: &mut Registry,
        n: usize,
        now: u64,
        size: Option<(u16, u16)>,
    ) -> (commands: Vec<Command>)
        requires
            old(registry)@.wf(),
        ensures
            final(self)@ == old(self)@.updated(n, now),
            final(registry)@ == advanced(old(registry)@, old(self)@, n, now),
            final(registry)@.wf(),
            shown(commands@) == advance_frame(
                old(registry)@,
                old(self)@,
                n,
                now,
                size,
            ),
    {
        match self.update(n, now) {
            Some(delta) => {
                registry.update(self.id, delta, now);
                refresh(registry, now, size)
            },
            None => {
                let commands: Vec<Command> = Vec::new();
                assert(shown(commands@) =~= Seq::empty());
                commands
            },
        }
    }

    /// Carries out a configuration request to the bar. A request that is
    /// turned down changes nothing, and so does any request once the bar is
    /// gone from the registry.
    pub fn configure(&self, registry: &mut Registry, setting: Setting) -> (done: Result<
        (),
        ConfigError,
    >)
        requires
            old(registry)@.wf(),
        ensures
            final(registry)@ == old(registry)@.configured(self@.id, setting@),
            final(registry)@.wf(),
            match setting@.refusal() {
                Some(reason) => done == Err::<(), ConfigError>(reason) && final(registry)@ == old(
                    registry,
                )@,
                None => done is Ok,
            },
    {
        registry.configure(self.id, setting)
    }

    /// Closes the bar: flushes what is still pending, takes the bar out of
    /// the registry, takes leave of it on screen, and draws the bars that
    /// remain. Closing again does nothing.
    pub fn close(
        &mut self,
        registry: &mut Registry,
        now: u64,
        size: Option<(u16, u16)>,
    ) -> (commands: Vec<Command>)
        requires
            old(registry)@.wf(),
        ensures
            final(self)@ == old(self)@.shut(),
            final(registry)@ == closed(old(registry)@, old(self)@, now),
            final(registry)@.wf(),
            shown(commands@) == close_frame(old(registry)@, old(self)@, now, size),
    {
        if self.closed {
            let commands: Vec<Command> = Vec::new();
            assert(shown(commands@) =~= Seq::empty());
            return commands;
        }
        let (columns, _rows) = resolve_size(size);
        proof {
            lemma_updated_contains(
                registry@,
                self.id,
                self.step,
                now,
                self.id,
            );
        }
        if self.step > 0 {
            registry.update(self.id, self.step, now);
        }
        let removed = registry.remove(self.id);
        self.step = 0;
        self.closed = true;
        match removed {
            Some(record) => {
                let mut commands = finalize(&record, registry.len(), now, columns);
                let ghost leave = shown(commands@);
                if registry.is_empty() {
                    commands.push(Command::Flush);
                    assert(shown(commands@) =~= leave + seq![CommandView::Flush]);
                } else {
                    let mut redraw = refresh(registry, now, size);
                    let ghost again = shown(redraw@);
                    commands.append(&mut redraw);
                    assert(shown(commands@) =~= leave + again);
                }
                commands
            },
            None => refresh(registry, now, size),
        }
    }
}

/// Asks the standard library's `Iterator::size_hint` and hands on the upper
/// bound: how many items the iterator may still yield at most, where the
/// iterator can tell. The answer is the iterator's own; nothing is claimed
/// of it, and nothing is proved of it.
#[verifier::external_body]
fn upper_bound<Iter: Iterator>(iter: &Iter) -> (bound: Option<usize>) {
    iter.size_hint().1
}

/// An iterator together with the handle of the bar that follows it.
#[derive(Debug)]
pub struct Tqdm<Iter> {
    pub iter: Iter,
    pub pbar: Pbar,
}

/// Wraps an iterator: creates a bar for it, with the iterator's upper size
/// bound as the total, and returns the pair of both and the frame that
/// shows the new bar.
pub fn tqdm<Iter: Iterator>(
    registry: &mut Registry,
    iter: Iter,
    now: u64,
    size: Option<(u16, u16)>,
) -> (made: (Tqdm<Iter>, Vec<Command>))
    requires
        old(registry)@.wf(),
    ensures
        exists|total: Option<usize>| final(registry)@ == #[trigger] created(
            old(registry)@,
            total,
            now,
        ),
        final(registry)@.wf(),
        made.0.iter == iter,
        made.0.pbar@ == PbarView::fresh(created_id(old(registry)@)),
        shown(made.1@) == full_frame(final(registry)@, now, size),
{
    let total = upper_bound(&iter);
    let (pbar, commands) = pbar(registry, total, now, size);
    (Tqdm { iter, pbar }, commands)
}

impl<Iter> Tqdm<Iter> {
    /// Sets the bar's label, or takes it away.
    pub fn desc(self, registry: &mut Registry, desc: Option<&str>) -> (bar: Self)
        requires
            old(registry)@.wf(),
        ensures
            bar == self,
            final(registry)@ == old(registry)@.configured(
                self.pbar@.id,
                SettingView::Label(
                    match desc {
                        Some(text) => Some(text@),
                        None => None,
                    },
                ),
            ),
            final(registry)@.wf(),
    {
        let label: Option<String> = match desc {
            Some(text) => Some(text.to_owned()),
            None => None,
        };
        let _ = self.pbar.configure(registry, Setting::Label(label));
        self
    }

    /// Fixes the width of the bar's line, or lets it follow the terminal.
    pub fn width(self, registry: &mut Registry, width: Option<usize>) -> (bar: Self)
        requires
            old(registry)@.wf(),
        ensures
            bar == self,
            final(registry)@ == old(registry)@.configured(
                self.pbar@.id,
                SettingView::Width(width),
            ),
            final(registry)@.wf(),
    {
        let _ = self.pbar.configure(registry, Setting::Width(width));
        self
    }

    /// Sets the glyphs the bar is drawn with. A style without any glyph is
    /// turned down: nothing changes, and the bar comes back with the reason.
    pub fn style(self, registry: &mut Registry, style: Style) -> (bar: Result<
        Self,
        (Self, ConfigError),
    >)
        requires
            old(registry)@.wf(),
        ensures
            final(registry)@ == old(registry)@.configured(
                self.pbar@.id,
                SettingView::Style(style@),
            ),
            final(registry)@.wf(),
            match bar {
                Ok(bar) => bar == self && style@.len() > 0,
                Err((bar, reason)) => {
                    &&& bar == self
                    &&& reason == ConfigError::EmptyStyle
                    &&& style@.len() == 0
                    &&& final(registry)@ == old(registry)@
                },
            },
    {
        match self.pbar.configure(registry, Setting::Style(style)) {
            Ok(_) => Ok(self),
            Err(reason) => Err((self, reason)),
        }
    }

    /// Sets the weight of the newest sample in the rate estimate, in
    /// millionths: 1_000_000 follows the newest sample alone. A factor of
    /// zero or above 1_000_000 is turned down: nothing changes, and the bar
    /// comes back with the reason.
    pub fn smoothing(self, registry: &mut Registry, smoothing: u32) -> (bar: Result<
        Self,
        (Self, ConfigError),
    >)
        requires
            old(registry)@.wf(),
        ensures
            final(registry)@ == old(registry)@.configured(
                self.pbar@.id,
                SettingView::Smoothing(smoothing),
            ),
            final(registry)@.wf(),
            match bar {
                Ok(bar) => bar == self && 0 < smoothing <= 1_000_000,
                Err((bar, reason)) => {
                    &&& bar == self
                    &&& reason == ConfigError::SmoothingOutOfRange
                    &&& !(0 < smoothing <= 1_000_000)
                    &&& final(registry)@ == old(registry)@
                },
            },
    {
        match self.pbar.configure(registry, Setting::Smoothing(smoothing)) {
            Ok(_) => Ok(self),
            Err(reason) => Err((self, reason)),
        }
    }

    /// Says what becomes of the bar when it closes: `true` removes it as if
    /// it had never been, `false` leaves its final line on screen.
    pub fn clear(self, registry: &mut Registry, clear: bool) -> (bar: Self)
        requires
            old(registry)@.wf(),
        ensures
            bar == self,
            final(registry)@ == old(registry)@.configured(
                self.pbar@.id,
                SettingView::ClearOnClose(clear),
            ),
            final(registry)@.wf(),
    {
        let _ = self.pbar.configure(registry, Setting::ClearOnClose(clear));
        self
    }
}

impl<Iter: Iterator> Tqdm<Iter> {
    /// Takes the next item from the wrapped iterator and hands it on as it
    /// came. An item is reported to the bar as one step of progress. When
    /// the iterator has no more items the bar is closed, once: later calls
    /// find it closed and change nothing.
    pub fn next(&mut self, registry: &mut Registry, now: u64, size: Option<(u16, u16)>) -> (step: (
        Option<Iter::Item>,
        Vec<Command>,
    ))
        requires
            old(registry)@.wf(),
        ensures
            final(registry)@.wf(),
            final(self).iter.obeys_prophetic_iter_laws() ==> if old(self).iter.remaining().len()
                > 0 {
                &&& step.0 == Some(old(self).iter.remaining()[0])
                &&& final(self).iter.remaining() == old(self).iter.remaining().drop_first()
            } else {
                &&& step.0 is None
                &&& final(self).iter.remaining() == old(self).iter.remaining()
            },
            step.0 is Some ==> {
                &&& final(self).pbar@ == old(self).pbar@.updated(1, now)
                &&& final(registry)@ == advanced(old(registry)@, old(self).pbar@, 1, now)
                &&& shown(step.1@) == advance_frame(old(registry)@, old(self).pbar@, 1, now, size)
            },
            step.0 is None ==> {
                &&& final(self).pbar@ == old(self).pbar@.shut()
                &&& final(registry)@ == closed(old(registry)@, old(self).pbar@, now)
                &&& shown(step.1@) == close_frame(old(registry)@, old(self).pbar@, now, size)
            },
    {
        let item = self.iter.next();
        let commands = if item.is_some() {
            self.pbar.advance(registry, 1, now, size)
        } else {
            self.pbar.close(registry, now, size)
        };
        (item, commands)
    }
}

/// Lets any iterator be wrapped by a method call: `iter.tqdm(..)` is
/// `tqdm(.., iter, ..)`.
pub trait Iter<Item>: Iterator<Item = Item> {
    fn tqdm(self, registry: &mut Registry, now: u64, size: Option<(u16, u16)>) -> (made: (
        Tqdm<Self>,
        Vec<Command>,
    )) where Self: Sized
        requires
            old(registry)@.wf(),
        ensures
            exists|total: Option<usize>| final(registry)@ == #[trigger] created(
                old(registry)@,
                total,
                now,
            ),
            final(registry)@.wf(),
            made.0.iter == self,
            made.0.pbar@ == PbarView::fresh(created_id(old(registry)@)),
            shown(made.1@) == full_frame(final(registry)@, now, size),
    {
        tqdm(registry, self, now, size)
    }
}

impl<I: Iterator> Iter<I::Item> for I {

}

/// Closing is idempotent: a second close finds the handle closed, leaves
/// handle and registry exactly as the first close left them, and draws
/// nothing, so that the farewell of a bar is sent once only.
pub proof fn lemma_close_is_idempotent(
    registry: RegistryView,
    handle: PbarView,
    first: u64,
    second: u64,
    size: Option<(u16, u16)>,
)
    ensures
        handle.shut().closed,
        handle.shut().shut() == handle.shut(),
        closed(closed(registry, handle, first), handle.shut(), second) == closed(
            registry,
            handle,
            first,
        ),
        close_frame(closed(registry, handle, first), handle.shut(), second, size)
            == Seq::<CommandView>::empty(),
{
}

/// A closed handle takes no more progress: reporting items changes neither
/// the handle nor the registry, and draws nothing.
pub proof fn lemma_closed_handle_is_inert(
    registry: RegistryView,
    handle: PbarView,
    n: usize,
    now: u64,
    size: Option<(u16, u16)>,
)
    requires
        handle.closed,
    ensures
        handle.updated(n, now) == handle,
        advanced(registry, handle, n, now) == registry,
        advance_frame(registry, handle, n, now, size) == Seq::<CommandView>::empty(),
{
}

/// What handles do to a registry are events of its history: creating a bar,
/// flushing progress and closing an open handle change the registry as the
/// event of that kind does, and nothing else that a handle is asked changes
/// the registry at all.
pub proof fn lemma_handles_make_history(
    registry: RegistryView,
    handle: PbarView,
    total: Option<usize>,
    n: usize,
    now: u64,
)
    ensures
        created(registry, total, now) == step(registry, Event::Create { total, now }),
        advanced(registry, handle, n, now) == match handle.flushed(n, now) {
            Some(delta) => step(registry, Event::Advance { id: handle.id, delta, now }),
            None => registry,
        },
        closed(registry, handle, now) == if handle.closed {
            registry
        } else {
            step(registry, Event::Close { id: handle.id, pending: handle.pending, now })
        },
{
}

} // verus!

