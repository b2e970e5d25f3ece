//! Counts and times of a reaction's records, as a whole and by phase.

use crate::ids::TestRunReactionId;
use crate::reactions::output_loggers::OutputLoggerResult;
use crate::text::option_text;
use vstd::prelude::*;
use vstd::string::*;

verus! {

/// Counts and times of one phase of a run.
#[derive(Clone, Copy, Debug, PartialEq, Eq, Structural)]
pub struct PhaseMetrics {
    pub start_time_ns: u64,
    pub end_time_ns: u64,
    pub duration_ns: u64,
    pub record_count: u64,
}

/// Counts and times of a run.
#[derive(Clone, Copy, Debug, PartialEq, Eq, Structural)]
pub struct PerformanceMetrics {
    pub start_time_ns: u64,
    pub end_time_ns: u64,
    pub duration_ns: u64,
    pub record_count: u64,
    /// The phase of the initial load, where its number of records is configured.
    pub bootstrap: Option<PhaseMetrics>,
    /// The phase after the initial load, where that was reached.
    pub steady_state: Option<PhaseMetrics>,
}

/// How a performance metrics logger is set up.
#[derive(Clone, Debug)]
pub struct PerformanceMetricsOutputLoggerConfig {
    pub filename: Option<String>,
    /// The number of leading records that make up the initial load.
    pub bootstrap_record_count: Option<u64>,
}

impl PerformanceMetricsOutputLoggerConfig {
    /// The name of the file that the metrics go to: the configured one, or one with the given
    /// time stamp.
    pub fn file_name(&self, time_stamp: &str) -> (r: String)
        ensures
            r@ == (match option_text(self.filename) {
                Some(name) => name,
                None => "performance_metrics_"@ + time_stamp@ + ".json"@,
            }),
    {
        match &self.filename {
            Some(name) => name.clone(),
            None => {
                let mut name = "performance_metrics_".to_owned();
                name.append(time_stamp);
                name.append(".json");
                name
            },
        }
    }
}

/// Counts the records of a reaction and when they came.
#[derive(Debug)]
pub struct PerformanceMetricsOutputLogger {
    pub start_time_ns: Option<u64>,
    pub end_time_ns: u64,
    pub record_count: u64,
    pub bootstrap_record_count: Option<u64>,
    pub bootstrap_end_time_ns: Option<u64>,
    pub test_run_reaction_id: TestRunReactionId,
}

/// A difference, or zero where it would be negative.
pub open spec fn elapsed(from: u64, to: u64) -> u64 {
    if to >= from {
        (to - from) as u64
    } else {
        0
    }
}

/// The phase of the initial load of `k` records. Where it was not reached, the end of the run
/// ends it.
pub open spec fn bootstrap_phase(
    k: u64,
    start_time: u64,
    record_count: u64,
    bootstrap_end: u64,
) -> PhaseMetrics {
    PhaseMetrics {
        start_time_ns: start_time,
        end_time_ns: bootstrap_end,
        duration_ns: elapsed(start_time, bootstrap_end),
        record_count: if record_count < k {
            record_count
        } else {
            k
        },
    }
}

/// The phases of a run, where the initial load has a number of records.
pub open spec fn phases_of(
    bootstrap_record_count: Option<u64>,
    start_time: u64,
    end_time: u64,
    record_count: u64,
    bootstrap_end_time: Option<u64>,
) -> (Option<PhaseMetrics>, Option<PhaseMetrics>) {
    match bootstrap_record_count {
        Some(k) => if k > 0 {
            let bootstrap_end = match bootstrap_end_time {
                Some(time) => time,
                None => end_time,
            };
            (
                Some(bootstrap_phase(k, start_time, record_count, bootstrap_end)),
                if record_count >= k {
                    Some(
                        PhaseMetrics {
                            start_time_ns: bootstrap_end,
                            end_time_ns: end_time,
                            duration_ns: elapsed(bootstrap_end, end_time),
                            record_count: (record_count - k) as u64,
                        },
                    )
                } else {
                    None
                },
            )
        } else {
            (None, None)
        },
        None => (None, None),
    }
}

impl PerformanceMetricsOutputLogger {
    /// A logger that has seen nothing.
    pub fn new(
        test_run_reaction_id: TestRunReactionId,
        config: &PerformanceMetricsOutputLoggerConfig,
    ) -> (r: PerformanceMetricsOutputLogger)
        ensures
            r.start_time_ns is None,
            r.end_time_ns == 0,
            r.record_count == 0,
            r.bootstrap_record_count == config.bootstrap_record_count,
            r.bootstrap_end_time_ns is None,
            r.test_run_reaction_id == test_run_reaction_id,
    {
        PerformanceMetricsOutputLogger {
            start_time_ns: None,
            end_time_ns: 0,
            record_count: 0,
            bootstrap_record_count: config.bootstrap_record_count,
            bootstrap_end_time_ns: None,
            test_run_reaction_id,
        }
    }

    /// Counts a record, given the time when it came and the time when it was counted. The
    /// first record starts the run; the last one of the initial load ends that phase.
    pub fn log_handler_record(&mut self, received_ns: u64, counted_ns: u64)
        requires
            old(self).record_count < u64::MAX,
        ensures
            final(self).start_time_ns == (match old(self).start_time_ns {
                Some(time) => Some(time),
                None => Some(received_ns),
            }),
            final(self).record_count == old(self).record_count + 1,
            final(self).bootstrap_end_time_ns == (if old(self).bootstrap_end_time_ns is None
                && old(self).bootstrap_record_count == Some(final(self).record_count) {
                Some(counted_ns)
            } else {
                old(self).bootstrap_end_time_ns
            }),
            final(self).end_time_ns == old(self).end_time_ns,
            final(self).bootstrap_record_count == old(self).bootstrap_record_count,
            final(self).test_run_reaction_id == old(self).test_run_reaction_id,
    {
        if self.start_time_ns.is_none() {
            self.start_time_ns = Some(received_ns);
        }
        self.record_count = self.record_count + 1;
        match self.bootstrap_record_count {
            Some(k) => {
                if k > 0 && self.record_count == k && self.bootstrap_end_time_ns.is_none() {
                    self.bootstrap_end_time_ns = Some(counted_ns);
                }
            },
            None => {},
        }
    }

    /// The phases of the run.
    pub fn compute_phase_metrics(&self, start_time: u64) -> (r: (
        Option<PhaseMetrics>,
        Option<PhaseMetrics>,
    ))
        ensures
            r == phases_of(
                self.bootstrap_record_count,
                start_time,
                self.end_time_ns,
                self.record_count,
                self.bootstrap_end_time_ns,
            ),
    {
        let k = match self.bootstrap_record_count {
            Some(k) => if k > 0 {
                k
            } else {
                return (None, None);
            },
            None => {
                return (None, None);
            },
        };
        let bootstrap_end = self.bootstrap_end_time_ns.unwrap_or(self.end_time_ns);
        let bootstrap = PhaseMetrics {
            start_time_ns: start_time,
            end_time_ns: bootstrap_end,
            duration_ns: bootstrap_end.saturating_sub(start_time),
            record_count: if self.record_count < k {
                self.record_count
            } else {
                k
            },
        };
        let steady_state = if self.record_count >= k {
            Some(
                PhaseMetrics {
                    start_time_ns: bootstrap_end,
                    end_time_ns: self.end_time_ns,
                    duration_ns: self.end_time_ns.saturating_sub(bootstrap_end),
                    record_count: self.record_count - k,
                },
            )
        } else {
            None
        };
        (Some(bootstrap), steady_state)
    }

    /// Ends the run and sums it up. A run without records has no duration.
    pub fn end_test_run(&mut self, now_ns: u64) -> (r: PerformanceMetrics)
        requires
            old(self).start_time_ns matches Some(start) ==> start <= now_ns,
        ensures
            final(self).end_time_ns == now_ns,
            final(self).start_time_ns == old(self).start_time_ns,
            final(self).record_count == old(self).record_count,
            final(self).bootstrap_record_count == old(self).bootstrap_record_count,
            final(self).bootstrap_end_time_ns == old(self).bootstrap_end_time_ns,
            final(self).test_run_reaction_id == old(self).test_run_reaction_id,
            ({
                let start = match old(self).start_time_ns {
                    Some(start) => start,
                    None => now_ns,
                };
                let (bootstrap, steady_state) = phases_of(
                    old(self).bootstrap_record_count,
                    start,
                    now_ns,
                    old(self).record_count,
                    old(self).bootstrap_end_time_ns,
                );
                r == PerformanceMetrics {
                    start_time_ns: start,
                    end_time_ns: now_ns,
                    duration_ns: (now_ns - start) as u64,
                    record_count: old(self).record_count,
                    bootstrap,
                    steady_state,
                }
            }),
    {
        self.end_time_ns = now_ns;
        let start_time = self.start_time_ns.unwrap_or(now_ns);
        let (bootstrap, steady_state) = self.compute_phase_metrics(start_time);
        PerformanceMetrics {
            start_time_ns: start_time,
            end_time_ns: now_ns,
            duration_ns: now_ns - start_time,
            record_count: self.record_count,
            bootstrap,
            steady_state,
        }
    }
}

impl PerformanceMetricsOutputLogger {
    /// What is known of a run whose metrics were written, whether it had records or not: the
    /// folder that the file lies in or, where the file lies in none, that of all output.
    pub fn result(file_folder: Option<String>, output_folder: String) -> (r: OutputLoggerResult)
        ensures
            r.has_output,
            r.logger_name@ == "PerformanceMetrics"@,
            r.output_folder_path == Some(
                match file_folder {
                    Some(folder) => folder,
                    None => output_folder,
                },
            ),
            r.summary is None,
    {
        let folder = match file_folder {
            Some(folder) => folder,
            None => output_folder,
        };
        OutputLoggerResult {
            has_output: true,
            logger_name: "PerformanceMetrics".to_owned(),
            output_folder_path: Some(folder),
            summary: None,
        }
    }
}

/// The phases of a run adjoin and count every record once: where both are there, the second
/// starts where the first ends and their records add up; where only the first is there, it
/// has all records.
pub proof fn lemma_phases_partition_the_run(
    bootstrap_record_count: Option<u64>,
    start_time: u64,
    end_time: u64,
    record_count: u64,
    bootstrap_end_time: Option<u64>,
)
    ensures
        ({
            let (bootstrap, steady_state) = phases_of(
                bootstrap_record_count,
                start_time,
                end_time,
                record_count,
                bootstrap_end_time,
            );
            &&& steady_state is Some ==> bootstrap is Some
            &&& bootstrap matches Some(b) ==> match steady_state {
                Some(s) => {
                    &&& b.record_count + s.record_count == record_count
                    &&& b.end_time_ns == s.start_time_ns
                    &&& b.start_time_ns == start_time
                    &&& s.end_time_ns == end_time
                    &&& start_time <= b.end_time_ns <= end_time ==> b.duration_ns + s.duration_ns
                        == end_time - start_time
                },
                None => b.record_count == record_count,
            }
        }),
{
}

/// The first phase holds the leading records up to the configured number, the second the rest;
/// each is as long as the time between its two ends. There are phases exactly where a number
/// of leading records is configured, and the second one only once that number is reached.
pub proof fn lemma_phases_are_as_configured(
    bootstrap_record_count: Option<u64>,
    start_time: u64,
    end_time: u64,
    record_count: u64,
    bootstrap_end_time: Option<u64>,
)
    ensures
        ({
            let (bootstrap, steady_state) = phases_of(
                bootstrap_record_count,
                start_time,
                end_time,
                record_count,
                bootstrap_end_time,
            );
            let k = match bootstrap_record_count {
                Some(k) => k,
                None => 0,
            };
            let turn = match bootstrap_end_time {
                Some(time) => time,
                None => end_time,
            };
            &&& bootstrap is Some <==> k > 0
            &&& steady_state is Some <==> 0 < k <= record_count
            &&& bootstrap matches Some(b) ==> {
                &&& b.record_count <= k
                &&& b.record_count == k || b.record_count == record_count
                &&& b.record_count <= record_count
                &&& b.start_time_ns == start_time
                &&& b.end_time_ns == turn
                &&& start_time <= turn ==> b.start_time_ns + b.duration_ns == b.end_time_ns
                &&& start_time > turn ==> b.duration_ns == 0
            }
            &&& steady_state matches Some(s) ==> {
                &&& s.record_count + k == record_count
                &&& s.start_time_ns == turn
                &&& s.end_time_ns == end_time
                &&& turn <= end_time ==> s.start_time_ns + s.duration_ns == s.end_time_ns
                &&& turn > end_time ==> s.duration_ns == 0
            }
        }),
{
}

} // verus!
