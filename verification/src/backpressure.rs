//! Flow control for a data channel: how many messages are written at a time,
//! and when writing pauses because too much is buffered.
use vstd::arithmetic::div_mod::lemma_div_denominator;
use vstd::arithmetic::power2::{lemma2_to64, lemma_pow2_pos, lemma_pow2_unfold, pow2};
use vstd::prelude::*;

use crate::platform::{Platform, PlatformConfig};

verus! {

/// How far writing has been throttled.
#[derive(Clone, Copy, Debug, PartialEq, Eq, Structural)]
pub struct BackpressureState {
    /// How many batches in a row ended in an error.
    pub consecutive_errors: usize,
    /// How many batches in a row were written in full since the batch size last grew.
    pub successful_batches: usize,
    /// How many messages a batch may hold.
    pub current_batch_size: usize,
    /// Whether writing is paused until the buffer has drained.
    pub paused_by_sctp: bool,
    /// From how many buffered bytes on writing pauses.
    pub high_water_bytes: usize,
    /// Below how many buffered bytes writing resumes.
    pub low_water_bytes: usize,
    /// How many bytes were buffered after the last batch.
    pub last_buffered_bytes: usize,
    /// The settings of the platform.
    pub platform_config: PlatformConfig,
}

/// `n`, or `min` where `n` is smaller.
pub open spec fn clamp_below(n: int, min: usize) -> usize {
    if n < min {
        min
    } else {
        n as usize
    }
}

/// `n`, or `max` where `n` is larger.
pub open spec fn clamp_above(n: int, max: usize) -> usize {
    if n > max {
        max
    } else {
        n as usize
    }
}

impl BackpressureState {
    /// The batch size is within the limits of the platform, and so are the water marks.
    pub open spec fn wf(self) -> bool {
        &&& self.platform_config.wf()
        &&& self.platform_config.min_batch_size <= self.current_batch_size
            <= self.platform_config.max_batch_size
        &&& self.high_water_bytes == self.platform_config.high_water_bytes
        &&& self.low_water_bytes == self.platform_config.low_water_bytes
    }

    /// The state before the first batch: nothing counted, nothing buffered, not paused.
    pub open spec fn initial(platform: Platform) -> Self {
        let config = PlatformConfig::of(platform);
        BackpressureState {
            consecutive_errors: 0,
            successful_batches: 0,
            current_batch_size: config.initial_batch_size,
            paused_by_sctp: false,
            high_water_bytes: config.high_water_bytes,
            low_water_bytes: config.low_water_bytes,
            last_buffered_bytes: 0,
            platform_config: config,
        }
    }

    /// Whether the batch that makes this number of full batches in a row lets the batch size grow.
    pub open spec fn grows_at(self, successes: usize) -> bool {
        &&& successes >= self.platform_config.success_batches_for_growth
        &&& self.current_batch_size < self.platform_config.max_batch_size
    }

    /// The next larger batch size: one more on Windows, half as much again elsewhere.
    pub open spec fn grown(self) -> usize {
        if self.platform_config.platform == Platform::Windows {
            (self.current_batch_size + 1) as usize
        } else {
            clamp_above(
                self.current_batch_size * 3 / 2,
                self.platform_config.max_batch_size,
            )
        }
    }

    /// The state after a batch of at most `batch_size` messages, of which
    /// `written` were written. An error halves the batch size; a full batch
    /// counts towards growth; a batch that wrote nothing shrinks it by a third.
    pub open spec fn adjusted(self, written: usize, had_error: bool, batch_size: usize) -> Self {
        let min = self.platform_config.min_batch_size;
        if had_error {
            BackpressureState {
                consecutive_errors: self.consecutive_errors.wrapping_add(1),
                successful_batches: 0,
                current_batch_size: clamp_below(self.current_batch_size as int / 2, min),
                ..self
            }
        } else if written == batch_size && written > 0 {
            let successes = self.successful_batches.wrapping_add(1);
            if self.grows_at(successes) {
                BackpressureState {
                    consecutive_errors: 0,
                    successful_batches: 0,
                    current_batch_size: self.grown(),
                    ..self
                }
            } else {
                BackpressureState { consecutive_errors: 0, successful_batches: successes, ..self }
            }
        } else if written == 0 && batch_size > 1 {
            BackpressureState {
                consecutive_errors: 0,
                current_batch_size: clamp_below(self.current_batch_size * 2 / 3, min),
                ..self
            }
        } else {
            BackpressureState { consecutive_errors: 0, ..self }
        }
    }

    /// The state of a connection that has not written yet.
    pub fn new(platform: Platform) -> (state: BackpressureState)
        ensures
            state.wf(),
            state == BackpressureState::initial(platform),
    {
        let platform_config = PlatformConfig::current(platform);
        BackpressureState {
            consecutive_errors: 0,
            successful_batches: 0,
            current_batch_size: platform_config.initial_batch_size,
            paused_by_sctp: false,
            high_water_bytes: platform_config.high_water_bytes,
            low_water_bytes: platform_config.low_water_bytes,
            last_buffered_bytes: 0,
            platform_config,
        }
    }

    /// How many messages the next batch may hold.
    pub fn batch_size(&self) -> (size: usize)
        ensures
            size == self.current_batch_size,
    {
        self.current_batch_size
    }

    /// Whether so much is buffered that writing has to pause.
    pub fn should_pause_for(&self, buffered: usize) -> (pause: bool)
        ensures
            pause == (buffered >= self.high_water_bytes),
    {
        buffered >= self.high_water_bytes
    }

    /// Below how many buffered bytes writing resumes.
    pub fn low_threshold(&self) -> (bytes: usize)
        ensures
            bytes == self.low_water_bytes,
    {
        self.low_water_bytes
    }

    /// Adapts the batch size to how a batch went.
    pub fn adjust_for_backpressure(&mut self, written: usize, had_error: bool, batch_size: usize)
        requires
            old(self).wf(),
        ensures
            *final(self) == old(self).adjusted(written, had_error, batch_size),
            final(self).wf(),
    {
        let min: usize = self.platform_config.min_batch_size;
        let max: usize = self.platform_config.max_batch_size;
        if had_error {
            self.consecutive_errors = self.consecutive_errors.wrapping_add(1);
            self.successful_batches = 0;
            let half: usize = self.current_batch_size / 2;
            self.current_batch_size = if half < min {
                min
            } else {
                half
            };
        } else {
            self.consecutive_errors = 0;
            if written == batch_size && written > 0 {
                self.successful_batches = self.successful_batches.wrapping_add(1);
                if self.successful_batches >= self.platform_config.success_batches_for_growth
                    && self.current_batch_size < max {
                    if self.platform_config.uses_linear_growth() {
                        self.current_batch_size = self.current_batch_size + 1;
                    } else {
                        let grown: usize = self.current_batch_size * 3 / 2;
                        self.current_batch_size = if grown > max {
                            max
                        } else {
                            grown
                        };
                    }
                    self.successful_batches = 0;
                }
            } else if written == 0 && batch_size > 1 {
                let shrunk: usize = self.current_batch_size * 2 / 3;
                self.current_batch_size = if shrunk < min {
                    min
                } else {
                    shrunk
                };
            }
        }
    }

    /// Whether the buffer is looked at before a batch.
    pub fn check_backpressure_during_write(&self) -> (yes: bool)
        ensures
            yes == self.platform_config.check_backpressure_during_write,
    {
        self.platform_config.check_backpressure_during_write
    }

    /// After every how many writes the buffer is looked at within a batch; never, for zero.
    pub fn check_backpressure_every_n_writes(&self) -> (n: usize)
        ensures
            n == self.platform_config.check_backpressure_every_n_writes,
    {
        self.platform_config.check_backpressure_every_n_writes
    }
}

/// The batch size grows only with a full batch that comes after enough others,
/// and an error never lets it grow.
pub proof fn lemma_growth_is_earned(
    state: BackpressureState,
    written: usize,
    had_error: bool,
    batch_size: usize,
)
    requires
        state.wf(),
        state.adjusted(written, had_error, batch_size).current_batch_size
            > state.current_batch_size,
    ensures
        !had_error,
        written == batch_size,
        written > 0,
        state.grows_at(state.successful_batches.wrapping_add(1)),
{
}

impl BackpressureState {
    /// The state after `n` batches in a row that ended in an error.
    pub open spec fn after_errors(self, n: nat) -> Self
        decreases n,
    {
        if n == 0 {
            self
        } else {
            self.after_errors((n - 1) as nat).adjusted(0, true, 0)
        }
    }
}

/// Errors in a row back off exponentially: each halves the batch size, down to
/// the smallest.
pub proof fn lemma_errors_halve(state: BackpressureState, n: nat)
    requires
        state.wf(),
    ensures
        state.after_errors(n).current_batch_size == clamp_below(
            state.current_batch_size as int / pow2(n) as int,
            state.platform_config.min_batch_size,
        ),
        state.after_errors(n).platform_config == state.platform_config,
    decreases n,
{
    let min = state.platform_config.min_batch_size;
    let size = state.current_batch_size as int;
    lemma_pow2_pos(n);
    if n == 0 {
        lemma2_to64();
    } else {
        let m = (n - 1) as nat;
        lemma_errors_halve(state, m);
        lemma_pow2_pos(m);
        lemma_pow2_unfold(n);
        lemma_div_denominator(size, pow2(m) as int, 2);
        assert(size / pow2(n) as int == (size / pow2(m) as int) / 2) by {
            assert(pow2(m) as int * 2 == pow2(n) as int);
        }
    }
}

/// A full batch that comes after enough others in a row lets the batch size
/// grow, wherever it stands below its largest: by one on Windows, and elsewhere
/// by half of itself, up to the largest. The counting begins anew.
pub proof fn lemma_full_batches_grow(state: BackpressureState, batch_size: usize)
    requires
        state.wf(),
        batch_size > 0,
        state.successful_batches < usize::MAX,
        state.successful_batches + 1 >= state.platform_config.success_batches_for_growth,
        state.current_batch_size < state.platform_config.max_batch_size,
    ensures
        ({
            let after = state.adjusted(batch_size, false, batch_size);
            let half_more = state.current_batch_size * 3 / 2;
            &&& after.successful_batches == 0
            &&& after.consecutive_errors == 0
            &&& state.platform_config.platform == Platform::Windows ==> after.current_batch_size
                == state.current_batch_size + 1
            &&& state.platform_config.platform == Platform::Other ==> after.current_batch_size
                == if half_more <= state.platform_config.max_batch_size {
                half_more
            } else {
                state.platform_config.max_batch_size as int
            }
        }),
{
}

/// A full batch that does not come after enough others, or finds the batch size
/// at its largest, is counted and changes no size.
pub proof fn lemma_full_batches_count(state: BackpressureState, batch_size: usize)
    requires
        state.wf(),
        batch_size > 0,
        state.successful_batches < usize::MAX,
        state.successful_batches + 1 < state.platform_config.success_batches_for_growth
            || state.current_batch_size == state.platform_config.max_batch_size,
    ensures
        ({
            let after = state.adjusted(batch_size, false, batch_size);
            &&& after.successful_batches == state.successful_batches + 1
            &&& after.consecutive_errors == 0
            &&& after.current_batch_size == state.current_batch_size
        }),
{
}

/// A batch that ends in an error halves the batch size, but for its smallest,
/// whatever was written. The error is counted, and full batches are counted anew.
pub proof fn lemma_error_halves(state: BackpressureState, written: usize, batch_size: usize)
    requires
        state.wf(),
        state.consecutive_errors < usize::MAX,
    ensures
        ({
            let after = state.adjusted(written, true, batch_size);
            let half = state.current_batch_size as int / 2;
            &&& after.consecutive_errors == state.consecutive_errors + 1
            &&& after.successful_batches == 0
            &&& half >= state.platform_config.min_batch_size ==> after.current_batch_size == half
            &&& half < state.platform_config.min_batch_size ==> after.current_batch_size
                == state.platform_config.min_batch_size
        }),
{
}

/// A batch of several messages that wrote none, without an error, takes a third
/// off the batch size, but for its smallest. Any other batch that is not full
/// changes no size. Neither is an error or a full batch.
pub proof fn lemma_other_batches(state: BackpressureState, written: usize, batch_size: usize)
    requires
        state.wf(),
        written != batch_size || written == 0,
    ensures
        ({
            let after = state.adjusted(written, false, batch_size);
            let less = state.current_batch_size * 2 / 3;
            &&& after.consecutive_errors == 0
            &&& after.successful_batches == state.successful_batches
            &&& written == 0 && batch_size > 1 && less >= state.platform_config.min_batch_size
                ==> after.current_batch_size == less
            &&& written == 0 && batch_size > 1 && less < state.platform_config.min_batch_size
                ==> after.current_batch_size == state.platform_config.min_batch_size
            &&& written > 0 || batch_size <= 1 ==> after.current_batch_size
                == state.current_batch_size
        }),
{
}

/// How a batch went changes neither the marks and the settings, nor whether
/// writing is paused, nor what was last seen of the buffer.
pub proof fn lemma_adjusting_keeps(
    state: BackpressureState,
    written: usize,
    had_error: bool,
    batch_size: usize,
)
    ensures
        ({
            let after = state.adjusted(written, had_error, batch_size);
            &&& after.paused_by_sctp == state.paused_by_sctp
            &&& after.high_water_bytes == state.high_water_bytes
            &&& after.low_water_bytes == state.low_water_bytes
            &&& after.last_buffered_bytes == state.last_buffered_bytes
            &&& after.platform_config == state.platform_config
        }),
{
}

/// Whatever comes of a batch, the batch size stays between the smallest and the largest.
pub proof fn lemma_size_stays_within(
    state: BackpressureState,
    written: usize,
    had_error: bool,
    batch_size: usize,
)
    requires
        state.platform_config.min_batch_size >= 1,
        3 * state.platform_config.max_batch_size <= usize::MAX,
        state.platform_config.min_batch_size <= state.current_batch_size
            <= state.platform_config.max_batch_size,
    ensures
        state.platform_config.min_batch_size <= state.adjusted(
            written,
            had_error,
            batch_size,
        ).current_batch_size <= state.platform_config.max_batch_size,
{
}

impl BackpressureState {
    /// The state after `n` full batches in a row.
    pub open spec fn after_full(self, n: nat) -> Self
        decreases n,
    {
        if n == 0 {
            self
        } else {
            self.after_full((n - 1) as nat).adjusted(1, false, 1)
        }
    }
}

proof fn lemma_full_batches_add(state: BackpressureState, m: nat, n: nat)
    ensures
        state.after_full(m + n) == state.after_full(m).after_full(n),
    decreases n,
{
    if n > 0 {
        lemma_full_batches_add(state, m, (n - 1) as nat);
    }
}

proof fn lemma_counts_up(state: BackpressureState, n: nat)
    requires
        state.wf(),
        state.successful_batches == 0,
        n < state.platform_config.success_batches_for_growth,
    ensures
        state.after_full(n).successful_batches == n,
        state.after_full(n).current_batch_size == state.current_batch_size,
        state.after_full(n).platform_config == state.platform_config,
        state.after_full(n).wf(),
    decreases n,
{
    if n > 0 {
        lemma_counts_up(state, (n - 1) as nat);
        lemma_full_batches_count(state.after_full((n - 1) as nat), 1);
        lemma_adjusting_keeps(state.after_full((n - 1) as nat), 1, false, 1);
    }
}

/// Full batches bring the batch size to its largest, from wherever an error or
/// an empty batch has left it: each row of them that is long enough brings it
/// up, and no more rows are needed than there are sizes.
pub proof fn lemma_full_batches_reach_the_largest(state: BackpressureState, rounds: nat)
    requires
        state.wf(),
        state.successful_batches == 0,
        state.platform_config.success_batches_for_growth > 0,
        state.platform_config.platform == Platform::Windows || state.current_batch_size >= 2,
        state.current_batch_size + rounds >= state.platform_config.max_batch_size,
        state.current_batch_size + rounds <= state.platform_config.max_batch_size,
    ensures
        exists|n: nat|
            n <= rounds * state.platform_config.success_batches_for_growth
                && #[trigger] state.after_full(n).current_batch_size
                == state.platform_config.max_batch_size,
    decreases rounds,
{
    let row = state.platform_config.success_batches_for_growth as nat;
    let max = state.platform_config.max_batch_size;
    if rounds == 0 {
        assert(state.after_full(0).current_batch_size == max);
    } else {
        let almost = (row - 1) as nat;
        lemma_counts_up(state, almost);
        let before = state.after_full(almost);
        lemma_full_batches_grow(before, 1);
        lemma_adjusting_keeps(before, 1, false, 1);
        let grown = state.after_full(row);
        assert(grown == before.adjusted(1, false, 1));
        assert(grown.current_batch_size > state.current_batch_size);
        assert(grown.wf());
        let left = (max - grown.current_batch_size) as nat;
        lemma_full_batches_reach_the_largest(grown, left);
        let n = choose|n: nat|
            n <= left * grown.platform_config.success_batches_for_growth
                && #[trigger] grown.after_full(n).current_batch_size
                == grown.platform_config.max_batch_size;
        lemma_full_batches_add(state, row, n);
        assert(row + n <= rounds * row) by (nonlinear_arith)
            requires
                n <= left * row,
                left + 1 <= rounds,
        ;
        assert(state.after_full(row + n).current_batch_size == max);
    }
}

/// On every platform enough full batches bring the batch size to its largest,
/// however small errors have made it.
pub proof fn lemma_sizes_recover(platform: Platform, state: BackpressureState)
    requires
        state.wf(),
        state.platform_config == PlatformConfig::of(platform),
        state.successful_batches == 0,
    ensures
        exists|n: nat| #[trigger]
            state.after_full(n).current_batch_size == PlatformConfig::of(platform).max_batch_size,
{
    let rounds = (state.platform_config.max_batch_size - state.current_batch_size) as nat;
    lemma_full_batches_reach_the_largest(state, rounds);
}

/// Writing pauses from the high mark on, and resumes below the low mark.
pub proof fn lemma_marks(state: BackpressureState, buffered: usize, pause: bool, low: usize)
    requires
        call_ensures(BackpressureState::should_pause_for, (&state, buffered), pause),
        call_ensures(BackpressureState::low_threshold, (&state,), low),
    ensures
        pause <==> buffered >= state.high_water_bytes,
        low == state.low_water_bytes,
        state.wf() && buffered < low ==> !pause,
{
}

/// What a state tells is what it holds.
pub proof fn lemma_told(state: BackpressureState, size: usize, before: bool, every: usize)
    requires
        call_ensures(BackpressureState::batch_size, (&state,), size),
        call_ensures(BackpressureState::check_backpressure_during_write, (&state,), before),
        call_ensures(BackpressureState::check_backpressure_every_n_writes, (&state,), every),
    ensures
        size == state.current_batch_size,
        before == state.platform_config.check_backpressure_during_write,
        every == state.platform_config.check_backpressure_every_n_writes,
{
}

/// However a batch went, its size is adapted like this: half of it after an
/// error; one more, or half as much again, after enough full batches in a row; a
/// third less after a batch of several that wrote none; and else as it was. It
/// never leaves its limits.
pub proof fn lemma_sizes_are_adapted(
    state: &mut BackpressureState,
    written: usize,
    had_error: bool,
    batch_size: usize,
)
    requires
        call_ensures(
            BackpressureState::adjust_for_backpressure,
            (state, written, had_error, batch_size),
            (),
        ),
        old(state).wf(),
        old(state).successful_batches < usize::MAX,
        old(state).consecutive_errors < usize::MAX,
    ensures
        ({
            let now = *final(state);
            let config = old(state).platform_config;
            let size = old(state).current_batch_size as int;
            let is_full = !had_error && written == batch_size && written > 0;
            let is_empty = !had_error && written == 0 && batch_size > 1;
            let grows = is_full && old(state).successful_batches + 1
                >= config.success_batches_for_growth && size < config.max_batch_size;
            let wanted = if had_error {
                size / 2
            } else if grows && config.platform == Platform::Windows {
                size + 1
            } else if grows {
                size * 3 / 2
            } else if is_empty {
                size * 2 / 3
            } else {
                size
            };
            &&& wanted < config.min_batch_size ==> now.current_batch_size
                == config.min_batch_size
            &&& wanted > config.max_batch_size ==> now.current_batch_size
                == config.max_batch_size
            &&& config.min_batch_size <= wanted <= config.max_batch_size ==> now.current_batch_size
                == wanted
            &&& now.consecutive_errors == if had_error {
                old(state).consecutive_errors + 1
            } else {
                0
            }
            &&& now.successful_batches == if had_error || grows {
                0
            } else if is_full {
                old(state).successful_batches + 1
            } else {
                old(state).successful_batches as int
            }
            &&& now.paused_by_sctp == old(state).paused_by_sctp
            &&& now.high_water_bytes == old(state).high_water_bytes
            &&& now.low_water_bytes == old(state).low_water_bytes
            &&& now.last_buffered_bytes == old(state).last_buffered_bytes
            &&& now.platform_config == old(state).platform_config
        }),
{
}

/// Before the first batch nothing is counted or buffered, and writing is not
/// paused. The batch size and the marks are those of the platform.
pub proof fn lemma_new_state(platform: Platform, state: BackpressureState, config: PlatformConfig)
    requires
        call_ensures(BackpressureState::new, (platform,), state),
        call_ensures(PlatformConfig::current, (platform,), config),
    ensures
        state.consecutive_errors == 0,
        state.successful_batches == 0,
        state.last_buffered_bytes == 0,
        !state.paused_by_sctp,
        state.current_batch_size == config.initial_batch_size,
        state.high_water_bytes == config.high_water_bytes,
        state.low_water_bytes == config.low_water_bytes,
        state.platform_config == config,
{
}

} // verus!
