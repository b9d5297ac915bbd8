//! What differs between the platforms that the WebRTC server runs on.
use vstd::prelude::*;

verus! {

/// The platform that a server runs on, as far as it makes a difference.
#[derive(Clone, Copy, Debug, PartialEq, Eq, Structural)]
pub enum Platform {
    Windows,
    Other,
}

/// The settings for sending on a data channel.
#[derive(Clone, Copy, Debug, PartialEq, Eq, Structural)]
pub struct PlatformConfig {
    /// The platform that the settings are for.
    pub platform: Platform,
    /// How many messages the first batch holds.
    pub initial_batch_size: usize,
    /// From how many buffered bytes on writing pauses.
    pub high_water_bytes: usize,
    /// Below how many buffered bytes writing resumes.
    pub low_water_bytes: usize,
    /// How many outputs of the connection are handled before other work gets its turn.
    pub max_outputs_per_call: usize,
    /// After how many full batches in a row the batch size grows.
    pub success_batches_for_growth: usize,
    /// The largest batch size.
    pub max_batch_size: usize,
    /// The smallest batch size.
    pub min_batch_size: usize,
    /// Whether the buffer is looked at before a batch.
    pub check_backpressure_during_write: bool,
    /// After every how many writes the buffer is looked at within a batch; never, for zero.
    pub check_backpressure_every_n_writes: usize,
}

/// How a thread passes the time between two turns of its loop.
#[derive(Clone, Copy, Debug, PartialEq, Eq, Structural)]
pub enum Pause {
    /// Sleep for as many milliseconds.
    SleepMillis(u64),
    /// Let other threads run.
    Yield,
    /// Go on at once.
    GoOn,
}

impl PlatformConfig {
    /// The settings of a platform.
    pub open spec fn of(platform: Platform) -> PlatformConfig {
        match platform {
            Platform::Windows => PlatformConfig {
                platform,
                initial_batch_size: 3,
                high_water_bytes: 2_097_152,
                low_water_bytes: 1_048_576,
                max_outputs_per_call: 10,
                success_batches_for_growth: 10,
                max_batch_size: 10,
                min_batch_size: 1,
                check_backpressure_during_write: true,
                check_backpressure_every_n_writes: 1,
            },
            Platform::Other => PlatformConfig {
                platform,
                initial_batch_size: 20,
                high_water_bytes: 10_485_760,
                low_water_bytes: 5_242_880,
                max_outputs_per_call: 50,
                success_batches_for_growth: 5,
                max_batch_size: 100,
                min_batch_size: 10,
                check_backpressure_during_write: false,
                check_backpressure_every_n_writes: 0,
            },
        }
    }

    /// The batch sizes are in order and small enough to be scaled, the water
    /// marks are in order, and some output is handled on each call.
    pub open spec fn wf(self) -> bool {
        &&& 1 <= self.min_batch_size <= self.initial_batch_size <= self.max_batch_size
        &&& 3 * self.max_batch_size <= usize::MAX
        &&& self.low_water_bytes <= self.high_water_bytes
        &&& 1 <= self.max_outputs_per_call
    }

    /// The settings for the platform that the server runs on.
    pub fn current(platform: Platform) -> (config: PlatformConfig)
        ensures
            config == PlatformConfig::of(platform),
            config.wf(),
    {
        match platform {
            Platform::Windows => PlatformConfig {
                platform,
                initial_batch_size: 3,
                high_water_bytes: 2 * 1024 * 1024,
                low_water_bytes: 1024 * 1024,
                max_outputs_per_call: 10,
                success_batches_for_growth: 10,
                max_batch_size: 10,
                min_batch_size: 1,
                check_backpressure_during_write: true,
                check_backpressure_every_n_writes: 1,
            },
            Platform::Other => PlatformConfig {
                platform,
                initial_batch_size: 20,
                high_water_bytes: 10 * 1024 * 1024,
                low_water_bytes: 5 * 1024 * 1024,
                max_outputs_per_call: 50,
                success_batches_for_growth: 5,
                max_batch_size: 100,
                min_batch_size: 10,
                check_backpressure_during_write: false,
                check_backpressure_every_n_writes: 0,
            },
        }
    }

    /// Whether the batch size grows by one at a time, and not by half of itself.
    pub fn uses_linear_growth(&self) -> (yes: bool)
        ensures
            yes == (self.platform == Platform::Windows),
    {
        match self.platform {
            Platform::Windows => true,
            Platform::Other => false,
        }
    }
}

/// How to pass the time after a turn. Windows always sleeps, so that it is not
/// overwhelmed while there is much to send.
pub fn platform_sleep(platform: Platform, did_work: bool) -> (pause: Pause)
    ensures
        pause == (match platform {
            Platform::Windows => Pause::SleepMillis(1),
            Platform::Other => if did_work {
                Pause::GoOn
            } else {
                Pause::Yield
            },
        }),
{
    match platform {
        Platform::Windows => Pause::SleepMillis(1),
        Platform::Other => if did_work {
            Pause::GoOn
        } else {
            Pause::Yield
        },
    }
}

/// How to pass the time after a turn in which input was `received` or not,
/// outputs were handled or not, and the deadline changed or not. Any of these
/// makes it a turn with work.
pub fn pause_after_turn(
    platform: Platform,
    received: bool,
    processed_outputs: bool,
    deadline_changed: bool,
) -> (pause: Pause)
    ensures
        pause == (match platform {
            Platform::Windows => Pause::SleepMillis(1),
            Platform::Other => if received || processed_outputs || deadline_changed {
                Pause::GoOn
            } else {
                Pause::Yield
            },
        }),
{
    platform_sleep(platform, received || processed_outputs || deadline_changed)
}

/// On Windows every turn ends in a sleep. Elsewhere a turn with any work goes
/// on at once, and one without lets other threads run.
pub proof fn lemma_pauses(
    platform: Platform,
    received: bool,
    processed: bool,
    changed: bool,
    pause: Pause,
)
    requires
        call_ensures(pause_after_turn, (platform, received, processed, changed), pause),
    ensures
        platform == Platform::Windows ==> pause == Pause::SleepMillis(1),
        platform == Platform::Other && received ==> pause == Pause::GoOn,
        platform == Platform::Other && processed ==> pause == Pause::GoOn,
        platform == Platform::Other && changed ==> pause == Pause::GoOn,
        platform == Platform::Other && !received && !processed && !changed ==> pause
            == Pause::Yield,
{
}

/// Only work keeps a thread from letting others run.
pub proof fn lemma_sleeps(platform: Platform, did_work: bool, pause: Pause)
    requires
        call_ensures(platform_sleep, (platform, did_work), pause),
    ensures
        platform == Platform::Windows ==> pause == Pause::SleepMillis(1),
        platform == Platform::Other ==> (did_work <==> pause == Pause::GoOn),
        platform == Platform::Other ==> (!did_work <==> pause == Pause::Yield),
{
}

/// The settings of a platform say which it is, and let batches grow by one on
/// Windows only, where the buffer is looked at before a batch and after every message.
pub proof fn lemma_settings(platform: Platform, config: PlatformConfig, linear: bool)
    requires
        call_ensures(PlatformConfig::current, (platform,), config),
        call_ensures(PlatformConfig::uses_linear_growth, (&config,), linear),
    ensures
        config.platform == platform,
        linear <==> platform == Platform::Windows,
        config.check_backpressure_during_write <==> platform == Platform::Windows,
        config.check_backpressure_every_n_writes == if platform == Platform::Windows {
            1usize
        } else {
            0usize
        },
        1 <= config.min_batch_size < config.initial_batch_size < config.max_batch_size,
        0 < config.low_water_bytes < config.high_water_bytes,
        2 * config.low_water_bytes == config.high_water_bytes,
        0 < config.max_outputs_per_call,
        0 < config.success_batches_for_growth,
{
}

/// Windows writes small batches, from one message to ten, beginning with three,
/// and buffers up to two mebibytes; other platforms write batches of ten to a
/// hundred messages, beginning with twenty, and buffer up to five times as much.
/// On Windows a fifth of the outputs is handled on each call, and it takes twice
/// as many full batches for the batch size to grow.
pub proof fn lemma_settings_of_platforms(windows: PlatformConfig, other: PlatformConfig)
    requires
        call_ensures(PlatformConfig::current, (Platform::Windows,), windows),
        call_ensures(PlatformConfig::current, (Platform::Other,), other),
    ensures
        windows.min_batch_size == 1 && windows.initial_batch_size == 3 && windows.max_batch_size
            == 10,
        other.min_batch_size == 10 && other.initial_batch_size == 20 && other.max_batch_size == 100,
        windows.high_water_bytes == 2 * 1024 * 1024,
        other.high_water_bytes == 5 * windows.high_water_bytes,
        other.low_water_bytes == 5 * windows.low_water_bytes,
        2 * windows.low_water_bytes == windows.high_water_bytes,
        windows.max_outputs_per_call == 10,
        other.max_outputs_per_call == 5 * windows.max_outputs_per_call,
        other.success_batches_for_growth == 5,
        windows.success_batches_for_growth == 2 * other.success_batches_for_growth,
{
}

} // verus!
