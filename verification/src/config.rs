//! The configuration of a suite.

use vstd::prelude::*;

verus! {

/// Suite-wide settings, fixed before the first benchmark runs.
#[derive(Debug)]
pub struct BenchmarkConfig {
    /// Restricts every sweep to its first parameter.
    pub quick: bool,
    /// Where the report is persisted, besides being printed.
    pub output_dir: Option<String>,
}

/// How many of `n` sweep parameters are run: the first only in quick mode,
/// all of them otherwise.
pub open spec fn sweep_len(quick: bool, n: nat) -> nat {
    if quick && n > 1 {
        1
    } else {
        n
    }
}

/// Whether a setting of the quick flag switches quick mode on: it does
/// where it reads `true` or `1`, and not where it reads otherwise or is
/// missing.
pub open spec fn quick_flag(setting: Option<String>) -> bool {
    match setting {
        Some(text) => text@ == "true"@ || text@ == "1"@,
        None => false,
    }
}

impl Default for BenchmarkConfig {
    /// All parameters of a sweep are run and the report is only printed.
    fn default() -> (config: BenchmarkConfig)
        ensures
            !config.quick,
            config.output_dir is None,
    {
        BenchmarkConfig { quick: false, output_dir: None }
    }
}

impl BenchmarkConfig {
    /// The configuration that the process-wide settings give: `quick` is
    /// the setting of the quick flag and `output_dir` that of the output
    /// location, each `None` where it is not set.
    pub fn from_env(quick: Option<String>, output_dir: Option<String>) -> (config: BenchmarkConfig)
        ensures
            config.quick == quick_flag(quick),
            config.output_dir == output_dir,
    {
        let quick = match quick {
            Some(text) => text == "true".to_owned() || text == "1".to_owned(),
            None => false,
        };
        BenchmarkConfig { quick, output_dir }
    }

    /// How many of `n` sweep parameters are run under this configuration.
    pub fn sweep_len(&self, n: usize) -> (k: usize)
        ensures
            k == sweep_len(self.quick, n as nat),
    {
        if self.quick && n > 1 {
            1
        } else {
            n
        }
    }
}

} // verus!
