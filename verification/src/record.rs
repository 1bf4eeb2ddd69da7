//! The record of one progress bar and how it is turned into a line of text.

use vstd::prelude::*;
use vstd::string::StrSliceExecFns;
use vstd::string::StringExecFns;
use crate::bar::{glyph_bar, lemma_percent_range, percent, percent_of, push_bar};
use crate::rate::{
    estimate, eta, hundredths, lemma_next_rate_bound, next_rate, time_left, DEFAULT_SMOOTHING,
    RATE_LIMIT, SMOOTHING_ONE,
};
use crate::style::{style_named, ConfigError, Style};
use crate::text::{
    clock, decimal, push_clock, push_decimal, push_repeated, push_two_digits, right_aligned,
    two_digits,
};

verus! {

/// How a bar is presented.
#[derive(Debug)]
pub struct Config {
    label: Option<String>,
    fixed_width: Option<usize>,
    style: Style,
    smoothing_factor: u32,
    clear_on_close: bool,
}

/// The state of one progress bar.
#[derive(Debug)]
pub struct Record {
    config: Config,
    created_at: u64,
    last_update_at: Option<u64>,
    completed: usize,
    total: Option<usize>,
    rate_estimate: Option<u128>,
}

/// One change to a bar's configuration.
#[derive(Debug)]
pub enum Setting {
    /// The text shown in front of the bar, or none.
    Label(Option<String>),
    /// A fixed line width, or none to follow the terminal.
    Width(Option<usize>),
    /// The glyph sequence to draw with.
    Style(Style),
    /// A predefined glyph sequence, by its name.
    StyleName(String),
    /// The weight of the newest sample in the rate estimate, in millionths.
    Smoothing(u32),
    /// Whether the bar leaves no trace when it closes.
    ClearOnClose(bool),
}

/// A configuration request with its texts as sequences of characters.
pub enum SettingView {
    Label(Option<Seq<char>>),
    Width(Option<usize>),
    /// A style, resolved into its glyphs.
    Style(Seq<char>),
    StyleName(Seq<char>),
    Smoothing(u32),
    ClearOnClose(bool),
}

impl View for Setting {
    type V = SettingView;

    open spec fn view(&self) -> SettingView {
        match self {
            Setting::Label(label) => SettingView::Label(
                match label {
                    Some(text) => Some(text@),
                    None => None,
                },
            ),
            Setting::Width(width) => SettingView::Width(*width),
            Setting::Style(style) => SettingView::Style(style@),
            Setting::StyleName(name) => SettingView::StyleName(name@),
            Setting::Smoothing(factor) => SettingView::Smoothing(*factor),
            Setting::ClearOnClose(clear) => SettingView::ClearOnClose(*clear),
        }
    }
}

impl SettingView {
    /// Why a request is turned down, if it is.
    ///
    /// A style must hold at least one glyph, a style name must be that of a
    /// predefined style, and a smoothing factor must lie in `(0, 1]`. A
    /// label, a width and the closing behaviour are always accepted.
    pub open spec fn refusal(self) -> Option<ConfigError> {
        match self {
            SettingView::Style(glyphs) => if glyphs.len() > 0 {
                None
            } else {
                Some(ConfigError::EmptyStyle)
            },
            SettingView::StyleName(name) => if style_named(name) is Some {
                None
            } else {
                Some(ConfigError::UnknownStyle)
            },
            SettingView::Smoothing(factor) => if 0 < factor <= SMOOTHING_ONE {
                None
            } else {
                Some(ConfigError::SmoothingOutOfRange)
            },
            _ => None,
        }
    }
}

/// What a configuration means to the renderer.
pub struct ConfigView {
    /// The text in front of the bar.
    pub label: Option<Seq<char>>,
    /// The width of the line where it does not follow the terminal.
    pub fixed_width: Option<usize>,
    /// The style, resolved into its glyphs from "empty" to "full".
    pub glyphs: Seq<char>,
    /// The weight of the newest rate sample, in millionths.
    pub smoothing_factor: u32,
    /// Whether the bar is wiped when it closes.
    pub clear_on_close: bool,
}

/// The content of a record. Times are microseconds, the rate is in
/// millionths of an item per second.
pub struct RecordView {
    pub config: ConfigView,
    /// When the bar was created.
    pub created_at: u64,
    /// When progress was last reported, if ever.
    pub last_update_at: Option<u64>,
    /// Items processed so far.
    pub completed: usize,
    /// The number of items expected, where it is known.
    pub total: Option<usize>,
    /// The smoothed rate, from the second update on.
    pub rate_estimate: Option<u128>,
}

impl ConfigView {
    /// The configuration of a fresh bar: no label, no fixed width, block
    /// glyphs, a smoothing factor of 0.3, and the final line is kept.
    pub open spec fn initial() -> ConfigView {
        ConfigView {
            label: None,
            fixed_width: None,
            glyphs: Style::Block@,
            smoothing_factor: DEFAULT_SMOOTHING,
            clear_on_close: false,
        }
    }

    /// The smoothing factor lies in `(0, 1]` and the style can draw.
    pub open spec fn wf(self) -> bool {
        &&& 0 < self.smoothing_factor <= SMOOTHING_ONE
        &&& self.glyphs.len() > 0
    }

    /// The configuration with one accepted request carried out.
    pub open spec fn with(self, setting: SettingView) -> ConfigView
        recommends
            setting.refusal() is None,
    {
        match setting {
            SettingView::Label(label) => ConfigView { label, ..self },
            SettingView::Width(width) => ConfigView { fixed_width: width, ..self },
            SettingView::Style(glyphs) => ConfigView { glyphs, ..self },
            SettingView::StyleName(name) => ConfigView { glyphs: style_named(name)->0@, ..self },
            SettingView::Smoothing(factor) => ConfigView { smoothing_factor: factor, ..self },
            SettingView::ClearOnClose(clear) => ConfigView { clear_on_close: clear, ..self },
        }
    }

    /// The configuration after a request: changed if the request is
    /// accepted, and as it was if the request is turned down.
    pub open spec fn apply(self, setting: SettingView) -> ConfigView {
        if setting.refusal() is Some {
            self
        } else {
            self.with(setting)
        }
    }
}

impl RecordView {
    /// A record as it is at creation: nothing completed, no update seen.
    pub open spec fn fresh(total: Option<usize>, now: u64) -> RecordView {
        RecordView {
            config: ConfigView::initial(),
            created_at: now,
            last_update_at: None,
            completed: 0,
            total,
            rate_estimate: None,
        }
    }

    /// The configuration is sound and the rate is within its limit.
    pub open spec fn wf(self) -> bool {
        &&& self.config.wf()
        &&& self.rate_estimate matches Some(rate) ==> rate <= RATE_LIMIT
    }

    /// The count after `delta` more items: the sum, held at `usize::MAX`.
    pub open spec fn count_after(self, delta: usize) -> usize {
        if self.completed + delta <= usize::MAX {
            (self.completed + delta) as usize
        } else {
            usize::MAX
        }
    }

    /// The rate after `delta` more items were reported at time `now`: the
    /// estimator is asked when an earlier update exists and time has passed
    /// since; otherwise the rate stays as it is.
    pub open spec fn rate_after(self, delta: usize, now: u64) -> Option<u128> {
        match self.last_update_at {
            Some(at) => if now > at {
                Some(
                    next_rate(
                        self.rate_estimate,
                        self.config.smoothing_factor,
                        delta,
                        (now - at) as u64,
                    ) as u128,
                )
            } else {
                self.rate_estimate
            },
            None => self.rate_estimate,
        }
    }

    /// The record after `delta` more items were reported at time `now`.
    pub open spec fn advanced(self, delta: usize, now: u64) -> RecordView {
        RecordView {
            completed: self.count_after(delta),
            rate_estimate: self.rate_after(delta, now),
            last_update_at: Some(now),
            ..self
        }
    }

    /// The record after a configuration request; unchanged when the request
    /// is turned down.
    pub open spec fn configured(self, setting: SettingView) -> RecordView {
        RecordView { config: self.config.apply(setting), ..self }
    }

    /// Whole seconds since creation; zero if the clock stepped back.
    pub open spec fn elapsed(self, now: u64) -> nat {
        if now >= self.created_at {
            ((now - self.created_at) / 1_000_000) as nat
        } else {
            0
        }
    }

    /// The label as it is printed: the text and `": "`, or nothing.
    pub open spec fn label_text(self) -> Seq<char> {
        match self.config.label {
            Some(text) => text + seq![':', ' '],
            None => Seq::empty(),
        }
    }

    /// The rate to two decimal places, or `"?"` while there is none.
    pub open spec fn rate_text(self) -> Seq<char> {
        match self.rate_estimate {
            Some(rate) => decimal(hundredths(rate as nat) / 100) + seq!['.'] + two_digits(
                hundredths(rate as nat) % 100,
            ),
            None => seq!['?'],
        }
    }

    /// The remaining time as a clock time, or `"?"` where it cannot be told.
    pub open spec fn eta_text(self) -> Seq<char> {
        match eta(self.total, self.completed, self.rate_estimate) {
            Some(seconds) => clock(seconds as nat),
            None => seq!['?'],
        }
    }

    /// The percentage shown for a total: `floor(100 * completed / total)`,
    /// within `0..=100`.
    pub open spec fn percent(self, total: usize) -> nat {
        percent(self.completed as nat, total as nat)
    }

    /// What stands before the glyph bar: label, percentage right-aligned in
    /// three columns, `"%|"`.
    pub open spec fn head(self, total: usize) -> Seq<char> {
        self.label_text() + right_aligned(decimal(self.percent(total)), 3) + seq!['%', '|']
    }

    /// What stands behind the glyph bar:
    /// `"| {completed}/{total} [{elapsed}<{eta}, {rate}it/s]"`.
    pub open spec fn tail(self, total: usize, now: u64) -> Seq<char> {
        seq!['|', ' '] + decimal(self.completed as nat) + seq!['/'] + decimal(total as nat) + seq![
            ' ',
            '[',
        ] + clock(self.elapsed(now)) + seq!['<'] + self.eta_text() + seq![',', ' ']
            + self.rate_text() + seq!['i', 't', '/', 's', ']']
    }

    /// The columns left for the glyph bar in a line of `width` columns; none
    /// if head and tail alone fill the line.
    pub open spec fn bar_cells(self, total: usize, now: u64, width: nat) -> nat {
        let used = self.head(total).len() + self.tail(total, now).len();
        if width >= used {
            (width - used) as nat
        } else {
            0
        }
    }

    /// The glyph bar of a line of `width` columns.
    pub open spec fn bar(self, total: usize, now: u64, width: nat) -> Seq<char> {
        glyph_bar(
            self.config.glyphs,
            self.bar_cells(total, now, width),
            self.completed as nat,
            total as nat,
        )
    }

    /// The line of a bar without a total:
    /// `"{label}{completed}it [{elapsed}, {rate}it/s]"`.
    pub open spec fn unbounded_line(self, now: u64) -> Seq<char> {
        self.label_text() + decimal(self.completed as nat) + seq!['i', 't', ' ', '['] + clock(
            self.elapsed(now),
        ) + seq![',', ' '] + self.rate_text() + seq!['i', 't', '/', 's', ']']
    }

    /// The line of a bar with a total: head, glyph bar, tail.
    pub open spec fn bounded_line(self, total: usize, now: u64, width: nat) -> Seq<char> {
        self.head(total) + self.bar(total, now, width) + self.tail(total, now)
    }

    /// The text of the bar at time `now` in a line of `width` columns.
    pub open spec fn line(self, now: u64, width: nat) -> Seq<char> {
        match self.total {
            Some(total) => self.bounded_line(total, now, width),
            None => self.unbounded_line(now),
        }
    }
}

/// The views of a sequence of records, one for one.
pub open spec fn views_of(records: Seq<Record>) -> Seq<RecordView> {
    Seq::new(records.len(), |i: int| records[i]@)
}

impl View for Config {
    type V = ConfigView;

    closed spec fn view(&self) -> ConfigView {
        ConfigView {
            label: match self.label {
                Some(text) => Some(text@),
                None => None,
            },
            fixed_width: self.fixed_width,
            glyphs: self.style@,
            smoothing_factor: self.smoothing_factor,
            clear_on_close: self.clear_on_close,
        }
    }
}

impl View for Record {
    type V = RecordView;

    closed spec fn view(&self) -> RecordView {
        RecordView {
            config: self.config@,
            created_at: self.created_at,
            last_update_at: self.last_update_at,
            completed: self.completed,
            total: self.total,
            rate_estimate: self.rate_estimate,
        }
    }
}

/// The glyph bar of a line is exactly as wide as the columns left for it,
/// and the percentage in front of it is at most one hundred.
pub proof fn lemma_bar_fills_its_cells(record: RecordView, total: usize, now: u64, width: nat)
    ensures
        record.percent(total) <= 100,
        record.bar(total, now, width).len() == record.bar_cells(total, now, width),
{
    lemma_percent_range(record.completed as nat, total as nat);
}

/// A line with a total is exactly as wide as asked, unless head and tail
/// alone are wider; then it is exactly head and tail.
pub proof fn lemma_line_fills_width(record: RecordView, total: usize, now: u64, width: nat)
    ensures
        record.head(total).len() + record.tail(total, now).len() <= width
            ==> record.bounded_line(total, now, width).len() == width,
        record.head(total).len() + record.tail(total, now).len() > width
            ==> record.bounded_line(total, now, width) == record.head(total) + record.tail(
            total,
            now,
        ),
{
    if record.head(total).len() + record.tail(total, now).len() > width {
        assert(record.bar(total, now, width) =~= Seq::<char>::empty());
        assert(record.bounded_line(total, now, width) =~= record.head(total) + record.tail(
            total,
            now,
        ));
    }
}

/// Reporting progress never lowers the count, touches neither the
/// configuration nor the total, and keeps a sound record sound.
pub proof fn lemma_advanced_monotone(record: RecordView, delta: usize, now: u64)
    requires
        record.wf(),
    ensures
        record.advanced(delta, now).completed >= record.completed,
        record.advanced(delta, now).wf(),
        record.advanced(delta, now).config == record.config,
        record.advanced(delta, now).total == record.total,
        record.advanced(delta, now).created_at == record.created_at,
{
    if let Some(at) = record.last_update_at {
        if now > at {
            lemma_next_rate_bound(
                record.rate_estimate,
                record.config.smoothing_factor,
                delta,
                (now - at) as u64,
            );
        }
    }
}

/// A configuration request keeps a sound record sound, granted or not, and
/// touches none of the counters.
pub proof fn lemma_configured_wf(record: RecordView, setting: SettingView)
    requires
        record.wf(),
    ensures
        record.configured(setting).wf(),
        record.configured(setting).completed == record.completed,
        record.configured(setting).total == record.total,
        record.configured(setting).rate_estimate == record.rate_estimate,
        record.configured(setting).created_at == record.created_at,
        record.configured(setting).last_update_at == record.last_update_at,
        setting.refusal() is Some ==> record.configured(setting) == record,
{
}

impl Default for Config {
    fn default() -> (config: Self)
        ensures
            config@ == ConfigView::initial(),
    {
        Config {
            label: None,
            fixed_width: None,
            style: Style::default(),
            smoothing_factor: DEFAULT_SMOOTHING,
            clear_on_close: false,
        }
    }
}

impl Clone for Config {
    fn clone(&self) -> (copy: Self)
        ensures
            copy == *self,
    {
        Config {
            label: match &self.label {
                Some(text) => Some(text.clone()),
                None => None,
            },
            fixed_width: self.fixed_width,
            style: self.style.clone(),
            smoothing_factor: self.smoothing_factor,
            clear_on_close: self.clear_on_close,
        }
    }
}

impl Clone for Record {
    fn clone(&self) -> (copy: Self)
        ensures
            copy == *self,
    {
        Record {
            config: self.config.clone(),
            created_at: self.created_at,
            last_update_at: self.last_update_at,
            completed: self.completed,
            total: self.total,
            rate_estimate: self.rate_estimate,
        }
    }
}

impl Setting {
    /// Says whether the request can be granted, and if not, why.
    pub fn check(&self) -> (verdict: Result<(), ConfigError>)
        ensures
            match self@.refusal() {
                Some(reason) => verdict == Err::<(), ConfigError>(reason),
                None => verdict is Ok,
            },
    {
        match self {
            Setting::Style(style) => {
                if style.is_drawable() {
                    Ok(())
                } else {
                    Err(ConfigError::EmptyStyle)
                }
            },
            Setting::StyleName(name) => {
                match Style::from_name(name.as_str()) {
                    Ok(_) => Ok(()),
                    Err(reason) => Err(reason),
                }
            },
            Setting::Smoothing(factor) => {
                if 0 < *factor && *factor <= SMOOTHING_ONE {
                    Ok(())
                } else {
                    Err(ConfigError::SmoothingOutOfRange)
                }
            },
            _ => Ok(()),
        }
    }
}

impl Config {
    /// Carries out one configuration request, or says why it cannot be.
    pub fn configure(&mut self, setting: Setting) -> (done: Result<(), ConfigError>)
        ensures
            final(self)@ == old(self)@.apply(setting@),
            match setting@.refusal() {
                Some(reason) => done == Err::<(), ConfigError>(reason) && *final(self) == *old(self),
                None => done is Ok,
            },
    {
        match setting {
            Setting::Label(label) => {
                self.label = label;
                Ok(())
            },
            Setting::Width(width) => {
                self.fixed_width = width;
                Ok(())
            },
            Setting::Style(style) => {
                if style.is_drawable() {
                    self.style = style;
                    Ok(())
                } else {
                    Err(ConfigError::EmptyStyle)
                }
            },
            Setting::StyleName(name) => {
                match Style::from_name(name.as_str()) {
                    Ok(style) => {
                        self.style = style;
                        Ok(())
                    },
                    Err(reason) => Err(reason),
                }
            },
            Setting::Smoothing(factor) => {
                if 0 < factor && factor <= SMOOTHING_ONE {
                    self.smoothing_factor = factor;
                    Ok(())
                } else {
                    Err(ConfigError::SmoothingOutOfRange)
                }
            },
            Setting::ClearOnClose(clear) => {
                self.clear_on_close = clear;
                Ok(())
            },
        }
    }
}

impl Record {
    /// A record for a bar created at time `now`, with the default
    /// configuration and nothing completed.
    pub fn new(total: Option<usize>, now: u64) -> (record: Record)
        ensures
            record@ == RecordView::fresh(total, now),
            record@.wf(),
    {
        Record {
            config: Config::default(),
            created_at: now,
            last_update_at: None,
            completed: 0,
            total,
            rate_estimate: None,
        }
    }

    /// Takes in `delta` newly completed items, reported at time `now`.
    ///
    /// The count grows by `delta` and stays at `usize::MAX` once it gets
    /// there. If an earlier update exists and time has passed since, the
    /// rate takes in `delta` items over that time. `now` becomes the time
    /// of the last update.
    pub fn update(&mut self, delta: usize, now: u64)
        requires
            old(self)@.wf(),
        ensures
            final(self)@ == old(self)@.advanced(delta, now),
            final(self)@.wf(),
    {
        proof {
            lemma_advanced_monotone(self@, delta, now);
        }
        if let Some(at) = self.last_update_at {
            if now > at {
                let rate: u128 = estimate(
                    self.rate_estimate,
                    self.config.smoothing_factor,
                    delta,
                    now - at,
                );
                self.rate_estimate = Some(rate);
            }
        }
        self.last_update_at = Some(now);
        self.completed = if delta <= usize::MAX - self.completed {
            self.completed + delta
        } else {
            usize::MAX
        };
    }

    /// Carries out one configuration request; a request that is turned down
    /// leaves the record as it was.
    pub fn configure(&mut self, setting: Setting) -> (done: Result<(), ConfigError>)
        ensures
            final(self)@ == old(self)@.configured(setting@),
            match setting@.refusal() {
                Some(reason) => done == Err::<(), ConfigError>(reason) && *final(self) == *old(self),
                None => done is Ok,
            },
            old(self)@.wf() ==> final(self)@.wf(),
    {
        self.config.configure(setting)
    }

    /// Whether the bar is to vanish without a trace when it closes.
    pub fn clear_on_close(&self) -> (clear: bool)
        ensures
            clear == self@.config.clear_on_close,
    {
        self.config.clear_on_close
    }

    /// The fixed line width, if one is set.
    pub fn fixed_width(&self) -> (width: Option<usize>)
        ensures
            width == self@.config.fixed_width,
    {
        self.config.fixed_width
    }

    /// The number of items completed so far.
    pub fn completed(&self) -> (count: usize)
        ensures
            count == self@.completed,
    {
        self.completed
    }

    /// The number of items expected, where it is known.
    pub fn total(&self) -> (total: Option<usize>)
        ensures
            total == self@.total,
    {
        self.total
    }

    /// The smoothed rate in millionths of an item per second, once two
    /// updates have been seen.
    pub fn rate_estimate(&self) -> (rate: Option<u128>)
        ensures
            rate == self@.rate_estimate,
    {
        self.rate_estimate
    }

    fn push_label(&self, out: &mut String)
        ensures
            final(out)@ == old(out)@ + self@.label_text(),
    {
        match &self.config.label {
            Some(text) => {
                out.append(text.as_str());
                out.push(':');
                out.push(' ');
                assert(out@ =~= old(out)@ + self@.label_text());
            },
            None => {
                assert(out@ =~= old(out)@ + self@.label_text());
            },
        }
    }

    fn push_rate(&self, out: &mut String)
        ensures
            final(out)@ == old(out)@ + self@.rate_text(),
    {
        match self.rate_estimate {
            Some(rate) => {
                let rounded: u128 = rate / 10_000 + (rate % 10_000 + 5_000) / 10_000;
                assert(rounded == hundredths(rate as nat));
                push_decimal(out, rounded / 100);
                out.push('.');
                push_two_digits(out, (rounded % 100) as u64);
                assert(out@ =~= old(out)@ + self@.rate_text());
            },
            None => {
                out.push('?');
                assert(out@ =~= old(out)@ + self@.rate_text());
            },
        }
    }

    fn push_eta(&self, out: &mut String)
        ensures
            final(out)@ == old(out)@ + self@.eta_text(),
    {
        match time_left(self.total, self.completed, self.rate_estimate) {
            Some(seconds) => {
                push_clock(out, seconds);
            },
            None => {
                out.push('?');
                assert(out@ =~= old(out)@ + self@.eta_text());
            },
        }
    }

    fn elapsed_seconds(&self, now: u64) -> (seconds: u64)
        ensures
            seconds == self@.elapsed(now),
    {
        if now >= self.created_at {
            (now - self.created_at) / 1_000_000
        } else {
            0
        }
    }

    fn push_stats(&self, out: &mut String)
        ensures
            final(out)@ == old(out)@ + seq![',', ' '] + self@.rate_text() + seq![
                'i',
                't',
                '/',
                's',
                ']',
            ],
    {
        out.push(',');
        out.push(' ');
        self.push_rate(out);
        out.push('i');
        out.push('t');
        out.push('/');
        out.push('s');
        out.push(']');
        assert(out@ =~= old(out)@ + seq![',', ' '] + self@.rate_text() + seq![
            'i',
            't',
            '/',
            's',
            ']',
        ]);
    }

    fn head_text(&self, total: usize) -> (text: String)
        ensures
            text@ == self@.head(total),
    {
        let mut text = String::new();
        self.push_label(&mut text);
        let pct: usize = percent_of(self.completed, total);
        let mut numeral = String::new();
        push_decimal(&mut numeral, pct as u128);
        let digits: usize = numeral.as_str().unicode_len();
        if digits < 3 {
            push_repeated(&mut text, ' ', 3 - digits);
        }
        text.append(numeral.as_str());
        text.push('%');
        text.push('|');
        assert(text@ =~= self@.head(total));
        text
    }

    fn tail_text(&self, total: usize, now: u64) -> (text: String)
        ensures
            text@ == self@.tail(total, now),
    {
        let mut text = String::new();
        text.push('|');
        text.push(' ');
        push_decimal(&mut text, self.completed as u128);
        text.push('/');
        push_decimal(&mut text, total as u128);
        text.push(' ');
        text.push('[');
        push_clock(&mut text, self.elapsed_seconds(now));
        text.push('<');
        self.push_eta(&mut text);
        self.push_stats(&mut text);
        assert(text@ =~= self@.tail(total, now));
        text
    }

    /// Renders the bar as one line of text for a line of `width` columns.
    ///
    /// Without a total the line is
    /// `"{label}{completed}it [{elapsed}, {rate}it/s]"`. With a total it is
    /// the head `"{label}{percent:>3}%|"`, the glyph bar, and the tail
    /// `"| {completed}/{total} [{elapsed}<{eta}, {rate}it/s]"`, where the
    /// glyph bar takes the columns that head and tail leave of `width`, so
    /// that the line is exactly `width` characters long unless head and tail
    /// alone are longer.
    pub fn format(&self, now: u64, width: usize) -> (text: String)
        ensures
            text@ == self@.line(now, width as nat),
            self@.total matches Some(total) ==> (self@.head(total).len() + self@.tail(
                total,
                now,
            ).len() <= width ==> text@.len() == width),
    {
        match self.total {
            None => {
                let mut text = String::new();
                self.push_label(&mut text);
                push_decimal(&mut text, self.completed as u128);
                text.push('i');
                text.push('t');
                text.push(' ');
                text.push('[');
                push_clock(&mut text, self.elapsed_seconds(now));
                self.push_stats(&mut text);
                assert(text@ =~= self@.unbounded_line(now));
                text
            },
            Some(total) => {
                let mut text = self.head_text(total);
                let tail = self.tail_text(total, now);
                let head_len: usize = text.as_str().unicode_len();
                let tail_len: usize = tail.as_str().unicode_len();
                let cells: usize = if width < head_len {
                    0
                } else if width - head_len < tail_len {
                    0
                } else {
                    width - head_len - tail_len
                };
                assert(cells == self@.bar_cells(total, now, width as nat));
                let glyphs = self.config.style.glyphs();
                push_bar(&mut text, &glyphs, cells, self.completed, total);
                text.append(tail.as_str());
                assert(text@ =~= self@.bounded_line(total, now, width as nat));
                text
            },
        }
    }
}

} // verus!
