//! Worker-pool sizing and the user's preference for it.
//!
//! The preference lives in a [`ConfigCell`] that the program owns and passes
//! to whoever needs it. The cell starts out empty and is filled, once, with
//! what was found on disk; reading and writing the file is left to the caller.

use vstd::prelude::*;

verus! {

/// Smallest worker count that is ever chosen automatically.
pub const MIN_DEFAULT_THREADS: usize = 2;

/// Core count assumed when the machine does not report one.
pub const FALLBACK_CPU_COUNT: usize = 4;

/// Stack size of each worker, in bytes. Developing a RAW file needs far more
/// stack than decoding a standard image.
pub const WORKER_STACK_BYTES: usize = 8388608;

/// User-adjustable settings.
#[derive(Clone, Copy, Debug, PartialEq, Eq, Structural)]
pub struct AppConfig {
    /// Number of threads for thumbnail generation; `None` means "choose for
    /// this machine".
    pub thumbnail_threads: Option<usize>,
}

impl Default for AppConfig {
    fn default() -> (config: Self)
        ensures
            config.thumbnail_threads is None,
    {
        AppConfig { thumbnail_threads: None }
    }
}

/// Holder of the settings in force: empty until they are first asked for.
#[derive(Debug)]
pub struct ConfigCell {
    current: Option<AppConfig>,
}

impl View for ConfigCell {
    type V = Option<AppConfig>;

    closed spec fn view(&self) -> Option<AppConfig> {
        self.current
    }
}

impl ConfigCell {
    /// An empty cell.
    pub fn new() -> (cell: Self)
        ensures
            cell@ is None,
    {
        ConfigCell { current: None }
    }

    /// Whether the settings have been loaded into the cell.
    pub fn is_initialized(&self) -> (r: bool)
        ensures
            r == (self@ is Some),
    {
        self.current.is_some()
    }
}

/// The settings in force. On first use the cell takes `loaded`, the settings
/// found on disk; afterwards `loaded` is ignored.
pub fn get_config(cell: &mut ConfigCell, loaded: AppConfig) -> (config: AppConfig)
    ensures
        config == (match old(cell)@ {
            Some(current) => current,
            None => loaded,
        }),
        final(cell)@ == Some(config),
{
    match cell.current {
        Some(current) => current,
        None => {
            cell.current = Some(loaded);
            loaded
        },
    }
}

/// Puts new settings in force after the attempt to save them, whose outcome is
/// `saved`. A failed save is reported and changes nothing. A cell that was
/// never filled stays empty: it will pick the saved settings up from disk.
pub fn update_config(cell: &mut ConfigCell, config: AppConfig, saved: Result<(), String>) -> (res:
    Result<(), String>)
    ensures
        res == saved,
        final(cell)@ == (if saved is Ok && old(cell)@ is Some {
            Some(config)
        } else {
            old(cell)@
        }),
{
    match saved {
        Ok(done) => {
            if cell.current.is_some() {
                cell.current = Some(config);
            }
            Ok(done)
        },
        Err(reason) => Err(reason),
    }
}

/// Number of logical cores to plan with, given what the machine reported.
pub fn get_cpu_count(detected: Option<usize>) -> (count: usize)
    ensures
        count == (match detected {
            Some(n) => n,
            None => FALLBACK_CPU_COUNT,
        }),
{
    match detected {
        Some(n) => n,
        None => FALLBACK_CPU_COUNT,
    }
}

/// Four fifths of `cpu_count`, rounded to the nearest whole number, and never
/// below two. `4 * n / 5` is never halfway between two whole numbers, so
/// "nearest" needs no tie rule.
pub open spec fn default_threads(cpu_count: int) -> int {
    let rounded = (4 * cpu_count + 2) / 5;
    if rounded < 2 {
        2
    } else {
        rounded
    }
}

/// Size of the worker pool for given settings on a machine with `cpu_count`
/// cores: the user's choice where there is one, the default otherwise.
pub open spec fn thread_count(config: AppConfig, cpu_count: int) -> int {
    match config.thumbnail_threads {
        Some(n) => n as int,
        None => default_threads(cpu_count),
    }
}

/// Default size of the worker pool on a machine with `cpu_count` logical cores.
pub fn calculate_default_threads(cpu_count: usize) -> (threads: usize)
    ensures
        threads == default_threads(cpu_count as int),
{
    let whole: usize = cpu_count / 5;
    let rest: usize = cpu_count % 5;
    let rounded: usize = whole * 4 + (rest * 4 + 2) / 5;
    if rounded < MIN_DEFAULT_THREADS {
        MIN_DEFAULT_THREADS
    } else {
        rounded
    }
}

/// Number of threads to generate thumbnails with.
pub fn get_thumbnail_thread_count(config: &AppConfig, cpu_count: usize) -> (threads: usize)
    ensures
        threads == thread_count(*config, cpu_count as int),
{
    match config.thumbnail_threads {
        Some(n) => n,
        None => calculate_default_threads(cpu_count),
    }
}

/// How the worker pool of a batch is set up.
#[derive(Clone, Copy, Debug, PartialEq, Eq, Structural)]
pub struct PoolSettings {
    /// Number of workers.
    pub threads: usize,
    /// Stack size of each worker, in bytes.
    pub stack_bytes: usize,
}

/// The worker pool for given settings on a machine with `cpu_count` cores,
/// decided once, when a batch is launched.
pub fn pool_settings(config: &AppConfig, cpu_count: usize) -> (pool: PoolSettings)
    ensures
        pool.threads == thread_count(*config, cpu_count as int),
        pool.stack_bytes == WORKER_STACK_BYTES,
{
    PoolSettings {
        threads: get_thumbnail_thread_count(config, cpu_count),
        stack_bytes: WORKER_STACK_BYTES,
    }
}

/// The default never drops below two workers and never exceeds the number of
/// cores of a machine that has at least two.
pub proof fn lemma_default_threads_bounds(cpu_count: int)
    requires
        0 <= cpu_count,
    ensures
        default_threads(cpu_count) >= 2,
        cpu_count >= 2 ==> default_threads(cpu_count) <= cpu_count,
        5 * default_threads(cpu_count) >= 4 * cpu_count - 2,
{
}

/// More cores never mean fewer default workers.
pub proof fn lemma_default_threads_monotone(a: int, b: int)
    requires
        0 <= a <= b,
    ensures
        default_threads(a) <= default_threads(b),
{
}

} // verus!
