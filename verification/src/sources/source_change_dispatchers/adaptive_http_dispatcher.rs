//! Changes that go to an HTTP endpoint in batches whose size adapts to the traffic.

use crate::scripts::{event_views, ChangeEventView, SourceChangeEvent};
use crate::sources::source_change_dispatchers::direct_format::{
    convert_all, convert_to_direct_format, direct_change, direct_changes, http_views,
    HttpChangeEvent,
};
use crate::sources::source_change_dispatchers::http_dispatcher::{
    default_endpoint, endpoint_of, url_of, url_text, HttpDispatchPlan, HttpPlanView,
};
use crate::test_repo_storage::models::HttpSourceChangeDispatcherDefinition;
use vstd::prelude::*;
use vstd::string::*;

verus! {

/// How large batches get and how long they wait.
#[derive(Clone, Copy, Debug, PartialEq, Eq, Structural)]
pub struct AdaptiveBatchConfig {
    pub max_batch_size: u64,
    pub min_batch_size: u64,
    pub max_wait_ms: u64,
    pub min_wait_ms: u64,
    pub adaptive_enabled: bool,
}

/// A tenth of a batch size, but at least one and at most ten.
pub open spec fn least_batch(batch_size: u64) -> u64 {
    if batch_size / 10 > 10 {
        10
    } else if batch_size / 10 > 1 {
        batch_size / 10
    } else {
        1
    }
}

/// The defaults with what a definition says: the largest batch and the longest wait. A tenth of
/// each is the least, of a batch no more than ten events, so that batches of up to a thousand
/// events go out from ten on.
pub open spec fn batch_config(
    defaults: AdaptiveBatchConfig,
    batch_size: Option<u64>,
    timeout_ms: Option<u64>,
    adaptive_enabled: Option<bool>,
) -> AdaptiveBatchConfig {
    AdaptiveBatchConfig {
        max_batch_size: match batch_size {
            Some(size) => size,
            None => defaults.max_batch_size,
        },
        min_batch_size: match batch_size {
            Some(size) => least_batch(size),
            None => defaults.min_batch_size,
        },
        max_wait_ms: match timeout_ms {
            Some(ms) => ms,
            None => defaults.max_wait_ms,
        },
        min_wait_ms: match timeout_ms {
            Some(ms) => ms / 10,
            None => defaults.min_wait_ms,
        },
        adaptive_enabled: match adaptive_enabled {
            Some(enabled) => enabled,
            None => true,
        },
    }
}

/// Where and how changes are sent.
#[derive(Debug)]
pub struct AdaptiveHttpSourceChangeDispatcherSettings {
    pub url: String,
    pub port: u16,
    pub endpoint: String,
    pub batch_endpoint: String,
    pub timeout_seconds: u64,
    pub source_id: String,
    pub adaptive_config: AdaptiveBatchConfig,
    pub batch_enabled: bool,
}

/// The source that a definition names.
pub open spec fn named_source(definition: HttpSourceChangeDispatcherDefinition) -> Seq<char> {
    match definition.source_id {
        Some(id) => id@,
        None => "test-source"@,
    }
}

/// The endpoint that a definition asks for.
pub open spec fn named_endpoint(definition: HttpSourceChangeDispatcherDefinition) -> Seq<char> {
    match definition.endpoint {
        Some(endpoint) => endpoint@,
        None => default_endpoint(named_source(definition)),
    }
}

impl AdaptiveHttpSourceChangeDispatcherSettings {
    /// The settings that a definition asks for.
    pub fn new(
        definition: &HttpSourceChangeDispatcherDefinition,
        defaults: AdaptiveBatchConfig,
    ) -> (r: AdaptiveHttpSourceChangeDispatcherSettings)
        ensures
            r.url@ == definition.url@,
            r.port == definition.port,
            r.endpoint@ == named_endpoint(*definition),
            r.batch_endpoint@ == named_endpoint(*definition) + "/batch"@,
            r.timeout_seconds == (match definition.timeout_seconds {
                Some(seconds) => seconds,
                None => 30,
            }),
            r.source_id@ == named_source(*definition),
            r.adaptive_config == batch_config(
                defaults,
                definition.batch_size,
                definition.batch_timeout_ms,
                definition.adaptive_enabled,
            ),
            r.batch_enabled == (match definition.batch_events {
                Some(batch) => batch,
                None => true,
            }),
    {
        let mut adaptive_config = defaults;
        match definition.batch_size {
            Some(batch_size) => {
                adaptive_config.max_batch_size = batch_size;
                adaptive_config.min_batch_size = if batch_size / 10 > 10 {
                    10
                } else if batch_size / 10 > 1 {
                    batch_size / 10
                } else {
                    1
                };
            },
            None => {},
        }
        match definition.batch_timeout_ms {
            Some(timeout_ms) => {
                adaptive_config.max_wait_ms = timeout_ms;
                adaptive_config.min_wait_ms = timeout_ms / 10;
            },
            None => {},
        }
        adaptive_config.adaptive_enabled = definition.adaptive_enabled.unwrap_or(true);
        let source_id = match &definition.source_id {
            Some(id) => id.clone(),
            None => "test-source".to_owned(),
        };
        let endpoint = endpoint_of(&definition.endpoint, source_id.as_str());
        let mut batch_endpoint = endpoint.clone();
        batch_endpoint.append("/batch");
        AdaptiveHttpSourceChangeDispatcherSettings {
            url: definition.url.clone(),
            port: definition.port,
            endpoint,
            batch_endpoint,
            timeout_seconds: definition.timeout_seconds.unwrap_or(30),
            source_id,
            adaptive_config,
            batch_enabled: definition.batch_events.unwrap_or(true),
        }
    }

    /// What is to be sent where for a batch that is ready.
    pub fn plan_batch(&self, batch: &Vec<SourceChangeEvent>) -> (r: HttpDispatchPlan)
        ensures
            r@ == batch_plan(
                url_of(self.url@, self.port, self.endpoint@),
                url_of(self.url@, self.port, self.batch_endpoint@),
                self.batch_enabled,
                event_views(batch@),
            ),
    {
        let changes = convert_all(batch);
        assert(changes@.len() == http_views(changes@).len());
        if changes.len() == 0 {
            HttpDispatchPlan::Nothing
        } else if self.batch_enabled && changes.len() > 1 {
            HttpDispatchPlan::Batch {
                url: url_text(self.url.as_str(), self.port, self.batch_endpoint.as_str()),
                changes,
            }
        } else {
            HttpDispatchPlan::Each {
                url: url_text(self.url.as_str(), self.port, self.endpoint.as_str()),
                changes,
            }
        }
    }

    /// The one change to send, and where, when there is no batcher.
    pub fn plan_single(&self, event: &SourceChangeEvent) -> (r: Result<
        (String, HttpChangeEvent),
        String,
    >)
        ensures
            match r {
                Ok((url, change)) => url@ == url_of(self.url@, self.port, self.endpoint@)
                    && direct_change(event@) == Some(change@),
                Err(error) => direct_change(event@) is None && error@
                    == "Failed to convert event to Direct Format"@,
            },
    {
        match convert_to_direct_format(event) {
            Some(change) => Ok(
                (url_text(self.url.as_str(), self.port, self.endpoint.as_str()), change),
            ),
            None => Err("Failed to convert event to Direct Format".to_owned()),
        }
    }
}

/// What is to be sent where for a batch that is ready: nothing where no change has a direct
/// format, one request where batches are enabled and there is more than one change, and a
/// request for each change otherwise.
pub open spec fn batch_plan(
    url: Seq<char>,
    batch_url: Seq<char>,
    batch_enabled: bool,
    events: Seq<ChangeEventView>,
) -> HttpPlanView {
    let changes = direct_changes(events);
    if changes.len() == 0 {
        HttpPlanView::Nothing
    } else if batch_enabled && changes.len() > 1 {
        HttpPlanView::Batch { url: batch_url, changes }
    } else {
        HttpPlanView::Each { url, changes }
    }
}

/// What came of the batches.
#[derive(Clone, Copy, Debug, PartialEq, Eq, Structural)]
pub struct BatcherMetrics {
    pub successful_batches: u64,
    pub failed_batches: u64,
    pub total_events: u64,
}

/// The counts have room for one more batch of a size.
pub open spec fn metrics_fit(metrics: BatcherMetrics, size: nat) -> bool {
    metrics.total_events + size <= u64::MAX && metrics.successful_batches + metrics.failed_batches
        < u64::MAX
}

impl BatcherMetrics {
    /// Counts before the first batch.
    pub fn new() -> (r: BatcherMetrics)
        ensures
            r == (BatcherMetrics { successful_batches: 0, failed_batches: 0, total_events: 0 }),
    {
        BatcherMetrics { successful_batches: 0, failed_batches: 0, total_events: 0 }
    }

    /// Whether the counts have room for one more batch of a size.
    pub fn has_room(&self, size: usize) -> (r: bool)
        ensures
            r == metrics_fit(*self, size as nat),
    {
        size as u64 <= u64::MAX - self.total_events && self.successful_batches < u64::MAX
            - self.failed_batches
    }

    /// Counts the events of a batch.
    pub fn count_events(&mut self, size: usize)
        requires
            old(self).total_events + size <= u64::MAX,
        ensures
            *final(self) == (BatcherMetrics {
                total_events: (old(self).total_events + size) as u64,
                ..*old(self)
            }),
    {
        self.total_events = self.total_events + size as u64;
    }

    /// Counts the outcome of a batch, and says whether the counts are due to be reported: they
    /// are after every hundredth batch.
    pub fn count_outcome(&mut self, success: bool) -> (report: bool)
        requires
            old(self).successful_batches + old(self).failed_batches < u64::MAX,
        ensures
            *final(self) == (BatcherMetrics {
                successful_batches: if success {
                    (old(self).successful_batches + 1) as u64
                } else {
                    old(self).successful_batches
                },
                failed_batches: if success {
                    old(self).failed_batches
                } else {
                    (old(self).failed_batches + 1) as u64
                },
                ..*old(self)
            }),
            report == ((final(self).successful_batches + final(self).failed_batches) % 100 == 0),
    {
        if success {
            self.successful_batches = self.successful_batches + 1;
        } else {
            self.failed_batches = self.failed_batches + 1;
        }
        (self.successful_batches + self.failed_batches) % 100 == 0
    }
}

/// Whether every request of a batch succeeded.
pub fn all_succeeded(outcomes: &Vec<bool>) -> (r: bool)
    ensures
        r == (forall|i: int| 0 <= i < outcomes@.len() ==> #[trigger] outcomes@[i]),
{
    let mut i: usize = 0;
    while i < outcomes.len()
        invariant
            0 <= i <= outcomes@.len(),
            forall|j: int| 0 <= j < i ==> #[trigger] outcomes@[j],
        decreases outcomes@.len() - i,
    {
        if !outcomes[i] {
            return false;
        }
        i = i + 1;
    }
    true
}

/// The least batch and wait never exceed the largest that a definition asks for, unless it
/// asks for batches of no size.
pub proof fn lemma_least_is_least(
    defaults: AdaptiveBatchConfig,
    batch_size: u64,
    timeout_ms: u64,
    adaptive_enabled: Option<bool>,
)
    requires
        batch_size > 0,
    ensures
        ({
            let config = batch_config(defaults, Some(batch_size), Some(timeout_ms), adaptive_enabled);
            1 <= config.min_batch_size <= config.max_batch_size && config.min_wait_ms
                <= config.max_wait_ms
        }),
{
}

} // verus!
