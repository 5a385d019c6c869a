//! The key debouncer: per-channel filtering of raw analog readings into a
//! stable pressed/released state with a one-tick edge flag.
//!
//! Every scan tick pushes one raw sample into an 8-slot moving-average
//! window; the truncating integer mean of the window is the smoothed value.
//! Under the fixed-threshold policy a key counts as pressed while the
//! smoothed value lies below the configured threshold (the analog channel
//! reads high when the switch is open, so a falling reading means a press).
//! `changed` is true exactly on the tick that flipped `pressed`, so a
//! consumer polling every tick sees one edge per physical transition.

use vstd::prelude::*;
use vstd::arithmetic::div_mod::lemma_div_is_ordered;

verus! {

/// Number of samples in the moving-average window.
pub const SMA_WINDOW: usize = 8;

/// The resting reading of an idle channel: the full scale of the 12-bit
/// converter, used to prime a fresh window.
pub const ADC_MAX: u16 = 4096;

/// The press-detection policy of one key channel.
#[derive(Debug, Clone, Copy, PartialEq, Eq, Structural)]
pub enum KeyConfig {
    /// Pressed while the smoothed reading is below this value.
    Threshold(u16),
    /// Distance-based hysteresis; declared for future use and not yet
    /// implemented.  Selecting it is a configuration error that must fail
    /// loudly at startup, never fall back to threshold behaviour.
    RapidTrigger(u16),
}

impl KeyConfig {
    /// Whether this policy has an implementation.  A caller must refuse a
    /// configuration for which this returns false instead of scanning.
    pub fn is_implemented(&self) -> (r: bool)
        ensures
            r == (*self is Threshold),
    {
        match *self {
            KeyConfig::Threshold(_) => true,
            KeyConfig::RapidTrigger(_) => false,
        }
    }
}

/// The mathematical model of one key channel's state.
pub struct KeyStateView {
    pub min: u16,
    pub max: u16,
    pub pressed: bool,
    pub changed: bool,
    pub config: KeyConfig,
    pub window: Seq<u16>,
}

/// State of one key channel: running extremes, the debounced state, the
/// edge flag, and the moving-average window of the most recent raw
/// readings, oldest first.
#[derive(Debug, Clone, Copy)]
pub struct KeyState {
    pub min: u16,
    pub max: u16,
    pub pressed: bool,
    pub changed: bool,
    pub config: KeyConfig,
    pub last: [u16; SMA_WINDOW],
}

impl View for KeyState {
    type V = KeyStateView;

    open spec fn view(&self) -> KeyStateView {
        KeyStateView {
            min: self.min,
            max: self.max,
            pressed: self.pressed,
            changed: self.changed,
            config: self.config,
            window: self.last@,
        }
    }
}

/// The truncating integer mean of a full window.
pub open spec fn spec_window_avg(w: Seq<u16>) -> int
    recommends
        w.len() == SMA_WINDOW,
{
    (w[0] + w[1] + w[2] + w[3] + w[4] + w[5] + w[6] + w[7]) / 8
}

/// The window after one tick: the oldest sample evicted, `value` appended.
pub open spec fn spec_shift(w: Seq<u16>, value: u16) -> Seq<u16> {
    w.skip(1).push(value)
}

/// The state of a freshly created key channel: extremes primed to their
/// identity elements, released, no edge, window filled with the resting
/// reading.
pub open spec fn spec_init(config: KeyConfig) -> KeyStateView {
    KeyStateView {
        min: u16::MAX,
        max: 0,
        pressed: false,
        changed: false,
        config,
        window: Seq::new(SMA_WINDOW as nat, |i: int| ADC_MAX),
    }
}

/// One debounce step under the fixed-threshold policy: extremes updated,
/// window shifted, and the smoothed value compared against the threshold;
/// `changed` records whether `pressed` flipped on this very tick.
pub open spec fn spec_update(k: KeyStateView, value: u16) -> KeyStateView
    recommends
        k.window.len() == SMA_WINDOW,
        k.config is Threshold,
{
    let window = spec_shift(k.window, value);
    let pressed = spec_window_avg(window) < k.config->Threshold_0;
    KeyStateView {
        min: if value < k.min { value } else { k.min },
        max: if value > k.max { value } else { k.max },
        pressed,
        changed: pressed != k.pressed,
        config: k.config,
        window,
    }
}

impl KeyState {
    /// A fresh channel with the given policy.
    pub fn new(config: KeyConfig) -> (k: KeyState)
        ensures
            k@ == spec_init(config),
    {
        let k = KeyState {
            min: u16::MAX,
            max: 0,
            pressed: false,
            changed: false,
            config,
            last: [ADC_MAX; SMA_WINDOW],
        };
        proof {
            assert(k.last@ =~= spec_init(config).window);
        }
        k
    }

    /// The smoothed value: the truncating mean of the window.
    pub fn smoothed(&self) -> (avg: u16)
        ensures
            avg == spec_window_avg(self@.window),
    {
        let sum: u32 = self.last[0] as u32 + self.last[1] as u32 + self.last[2] as u32
            + self.last[3] as u32 + self.last[4] as u32 + self.last[5] as u32
            + self.last[6] as u32 + self.last[7] as u32;
        (sum / 8) as u16
    }

    /// One scan tick: feed one raw reading through the filter.
    ///
    /// Only the implemented fixed-threshold policy may reach this point; a
    /// caller holding a [`KeyConfig::RapidTrigger`] configuration must fail
    /// at startup (see [`KeyConfig::is_implemented`]).
    pub fn update(&mut self, value: u16)
        requires
            old(self).config is Threshold,
        ensures
            final(self)@ == spec_update(old(self)@, value),
    {
        if value > self.max {
            self.max = value;
        }
        if value < self.min {
            self.min = value;
        }

        let w = self.last;
        self.last = [w[1], w[2], w[3], w[4], w[5], w[6], w[7], value];
        proof {
            assert(self.last@ =~= spec_shift(old(self)@.window, value));
        }

        let avg = self.smoothed();

        let threshold = match self.config {
            KeyConfig::Threshold(v) => v,
            KeyConfig::RapidTrigger(_) => vstd::pervasive::unreached(),
        };
        let pressed = avg < threshold;

        if pressed != self.pressed {
            self.changed = true;
            self.pressed = pressed;
        } else {
            self.changed = false;
        }
    }
}

/// The channel state after feeding `samples` through the filter in order,
/// one tick per sample.
pub open spec fn spec_run(k: KeyStateView, samples: Seq<u16>) -> KeyStateView
    decreases samples.len(),
{
    if samples.len() == 0 {
        k
    } else {
        spec_run(spec_update(k, samples[0]), samples.skip(1))
    }
}

/// How many ticks of the run raise the edge flag.
pub open spec fn spec_change_count(k: KeyStateView, samples: Seq<u16>) -> int
    decreases samples.len(),
{
    if samples.len() == 0 {
        0
    } else {
        let k1 = spec_update(k, samples[0]);
        (if k1.changed {
            1int
        } else {
            0int
        }) + spec_change_count(k1, samples.skip(1))
    }
}

/// The readings never rise along the sequence.
pub open spec fn non_increasing(s: Seq<u16>) -> bool {
    forall|i: int, j: int| 0 <= i <= j < s.len() ==> s[i] >= s[j]
}

/// Evicting the oldest reading for one that is no larger cannot raise the
/// smoothed value.
proof fn lemma_shift_avg_le(w: Seq<u16>, v: u16)
    requires
        w.len() == SMA_WINDOW,
        v <= w[0],
    ensures
        spec_window_avg(spec_shift(w, v)) <= spec_window_avg(w),
{
    let w2 = spec_shift(w, v);
    assert(w2[0] == w[1] && w2[1] == w[2] && w2[2] == w[3] && w2[3] == w[4] && w2[4] == w[5]
        && w2[5] == w[6] && w2[6] == w[7] && w2[7] == v);
    lemma_div_is_ordered(
        w2[0] + w2[1] + w2[2] + w2[3] + w2[4] + w2[5] + w2[6] + w2[7],
        w[0] + w[1] + w[2] + w[3] + w[4] + w[5] + w[6] + w[7],
        8,
    );
}

/// Once a key is pressed and its smoothed value sits below the threshold,
/// readings that keep falling hold it there: no further tick raises the
/// edge flag.
proof fn lemma_run_stays_pressed(k: KeyStateView, samples: Seq<u16>)
    requires
        k.window.len() == SMA_WINDOW,
        k.config is Threshold,
        k.pressed,
        spec_window_avg(k.window) < k.config->Threshold_0,
        non_increasing(k.window + samples),
    ensures
        spec_change_count(k, samples) == 0,
        spec_run(k, samples).pressed,
        spec_run(k, samples).config == k.config,
        spec_run(k, samples).window.len() == SMA_WINDOW,
        spec_window_avg(spec_run(k, samples).window) < k.config->Threshold_0,
    decreases samples.len(),
{
    if samples.len() > 0 {
        let v = samples[0];
        let k1 = spec_update(k, v);
        assert((k.window + samples)[0] == k.window[0]);
        assert((k.window + samples)[SMA_WINDOW as int] == v);
        lemma_shift_avg_le(k.window, v);
        assert(k1.window + samples.skip(1) =~= (k.window + samples).skip(1));
        assert forall|i: int, j: int|
            0 <= i <= j < (k1.window + samples.skip(1)).len() implies (k1.window + samples.skip(
            1,
        ))[i] >= (k1.window + samples.skip(1))[j] by {
            assert((k.window + samples)[i + 1] >= (k.window + samples)[j + 1]);
        }
        lemma_run_stays_pressed(k1, samples.skip(1));
    }
}

/// Debounce monotonicity: on a monotone run of readings that starts with
/// the key released and ends with the smoothed value below the threshold,
/// the edge flag is raised on exactly one tick, and the key ends pressed —
/// the state flips exactly once.
pub proof fn lemma_debounce_monotone(k: KeyStateView, samples: Seq<u16>)
    requires
        k.window.len() == SMA_WINDOW,
        k.config is Threshold,
        !k.pressed,
        non_increasing(k.window + samples),
        samples.len() > 0,
        spec_window_avg(spec_run(k, samples).window) < k.config->Threshold_0,
    ensures
        spec_change_count(k, samples) == 1,
        spec_run(k, samples).pressed,
    decreases samples.len(),
{
    let v = samples[0];
    let k1 = spec_update(k, v);
    assert((k.window + samples)[0] == k.window[0]);
    assert((k.window + samples)[SMA_WINDOW as int] == v);
    assert(k1.window + samples.skip(1) =~= (k.window + samples).skip(1));
    assert forall|i: int, j: int|
        0 <= i <= j < (k1.window + samples.skip(1)).len() implies (k1.window + samples.skip(
        1,
    ))[i] >= (k1.window + samples.skip(1))[j] by {
        assert((k.window + samples)[i + 1] >= (k.window + samples)[j + 1]);
    }
    if spec_window_avg(k1.window) < k.config->Threshold_0 {
        lemma_run_stays_pressed(k1, samples.skip(1));
    } else {
        if samples.len() == 1 {
            assert(spec_run(k, samples) == k1);
            assert(false);
        }
        lemma_debounce_monotone(k1, samples.skip(1));
    }
}

/// The window after a run of `n` identical readings: the oldest `n` slots
/// evicted, `n` copies of the reading appended; and once at least one such
/// tick has run, the pressed state is the comparison of the current
/// smoothed value against the threshold.
proof fn lemma_run_const_window(k: KeyStateView, v: u16, n: nat)
    requires
        k.window.len() == SMA_WINDOW,
        k.config is Threshold,
        n <= SMA_WINDOW,
    ensures
        spec_run(k, Seq::new(n, |i: int| v)).window =~= k.window.skip(n as int) + Seq::new(
            n,
            |i: int| v,
        ),
        spec_run(k, Seq::new(n, |i: int| v)).config == k.config,
        n >= 1 ==> spec_run(k, Seq::new(n, |i: int| v)).pressed == (spec_window_avg(
            spec_run(k, Seq::new(n, |i: int| v)).window,
        ) < k.config->Threshold_0),
    decreases n,
{
    let s = Seq::new(n, |i: int| v);
    if n == 0 {
        assert(k.window.skip(0) + s =~= k.window);
    } else {
        let k1 = spec_update(k, v);
        assert(s[0] == v);
        assert(s.skip(1) =~= Seq::new((n - 1) as nat, |i: int| v));
        lemma_run_const_window(k1, v, (n - 1) as nat);
        assert(spec_run(k, s) == spec_run(k1, s.skip(1)));
        assert(k1.window.skip(n - 1) + Seq::new((n - 1) as nat, |i: int| v) =~= k.window.skip(
            n as int,
        ) + s);
        if n == 1 {
            assert(spec_run(k, s) == k1);
        }
    }
}

/// Debounce stability: a full window of identical readings drives the
/// smoothed value to exactly that reading, and once settled there a
/// further identical reading flips nothing: the edge flag stays down.
pub proof fn lemma_debounce_stability(k: KeyStateView, v: u16)
    requires
        k.window.len() == SMA_WINDOW,
        k.config is Threshold,
    ensures
        spec_run(k, Seq::new(SMA_WINDOW as nat, |i: int| v)).window =~= Seq::new(
            SMA_WINDOW as nat,
            |i: int| v,
        ),
        spec_window_avg(spec_run(k, Seq::new(SMA_WINDOW as nat, |i: int| v)).window) == v,
        !spec_update(spec_run(k, Seq::new(SMA_WINDOW as nat, |i: int| v)), v).changed,
        spec_update(spec_run(k, Seq::new(SMA_WINDOW as nat, |i: int| v)), v).pressed == (
        spec_run(k, Seq::new(SMA_WINDOW as nat, |i: int| v)).pressed),
{
    lemma_run_const_window(k, v, SMA_WINDOW as nat);
    let r = spec_run(k, Seq::new(SMA_WINDOW as nat, |i: int| v));
    assert(r.window =~= k.window.skip(SMA_WINDOW as int) + Seq::new(SMA_WINDOW as nat, |i: int| v));
    assert(spec_window_avg(r.window) == (8 * v) / 8);
    assert(spec_shift(r.window, v) =~= r.window);
}

/// The key events of one finished scan tick: for every channel whose state
/// flipped on this tick, its index paired with the new pressed state, in
/// channel order.
pub open spec fn spec_events(keys: Seq<KeyState>) -> Seq<(usize, bool)>
    decreases keys.len(),
{
    if keys.len() == 0 {
        Seq::empty()
    } else {
        let prefix = spec_events(keys.drop_last());
        let k = keys.last();
        if k.changed {
            prefix.push(((keys.len() - 1) as usize, k.pressed))
        } else {
            prefix
        }
    }
}

/// The bank of key channels scanned each tick, in a fixed channel order.
pub struct AnalogueMatrix {
    pub keys: Vec<KeyState>,
}

impl AnalogueMatrix {
    /// A fresh bank with one channel per configuration entry.
    pub fn new(configs: Vec<KeyConfig>) -> (m: AnalogueMatrix)
        ensures
            m.keys@.len() == configs@.len(),
            forall|i: int| 0 <= i < configs@.len() ==> m.keys@[i]@ == spec_init(configs@[i]),
    {
        let mut keys: Vec<KeyState> = Vec::new();
        let n = configs.len();
        for i in 0..n
            invariant
                n == configs@.len(),
                keys@.len() == i,
                forall|j: int| 0 <= j < i ==> keys@[j]@ == spec_init(configs@[j]),
        {
            keys.push(KeyState::new(configs[i]));
        }
        AnalogueMatrix { keys }
    }

    /// One scan tick over the whole bank: feeds `samples[i]` to channel `i`
    /// (in fixed order, all channels before any event is reported) and
    /// returns the events of this tick.
    pub fn get(&mut self, samples: &Vec<u16>) -> (events: Vec<(usize, bool)>)
        requires
            old(self).keys@.len() == samples@.len(),
            forall|i: int| 0 <= i < old(self).keys@.len() ==> old(self).keys@[i].config is Threshold,
        ensures
            final(self).keys@.len() == old(self).keys@.len(),
            forall|i: int| 0 <= i < old(self).keys@.len() ==> final(self).keys@[i]@ == (
            spec_update(old(self).keys@[i]@, samples@[i])),
            events@ == spec_events(final(self).keys@),
    {
        let n = self.keys.len();
        for i in 0..n
            invariant
                n == old(self).keys@.len(),
                self.keys@.len() == n,
                samples@.len() == n,
                forall|j: int| 0 <= j < n ==> old(self).keys@[j].config is Threshold,
                forall|j: int| 0 <= j < i ==> self.keys@[j]@ == (spec_update(
                    old(self).keys@[j]@,
                    samples@[j],
                )),
                forall|j: int| i <= j < n ==> self.keys@[j] == old(self).keys@[j],
        {
            let mut k = self.keys[i];
            k.update(samples[i]);
            self.keys.set(i, k);
        }

        let mut events: Vec<(usize, bool)> = Vec::new();
        for i in 0..n
            invariant
                n == self.keys@.len(),
                events@ == spec_events(self.keys@.take(i as int)),
        {
            let k = self.keys[i];
            if k.changed {
                events.push((i, k.pressed));
            }
            proof {
                assert(self.keys@.take(i + 1).drop_last() =~= self.keys@.take(i as int));
                assert(self.keys@.take(i + 1).last() == self.keys@[i as int]);
            }
        }
        proof {
            assert(self.keys@.take(n as int) =~= self.keys@);
        }
        events
    }
}

} // verus!
