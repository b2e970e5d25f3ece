//! Changes that go to an HTTP endpoint as they come.

use crate::scripts::{event_views, ChangeEventView, SourceChangeEvent};
use crate::sequence::{Sequence, SequenceView};
use crate::sources::source_change_dispatchers::direct_format::{
    convert_all, direct_changes, http_views, HttpChangeEvent, HttpChangeView,
};
use crate::test_repo_storage::models::HttpSourceChangeDispatcherDefinition;
use crate::text::{decimal, u64_text};
use vstd::prelude::*;
use vstd::string::*;

verus! {

/// Where and how changes are sent.
#[derive(Debug)]
pub struct HttpSourceChangeDispatcherSettings {
    pub url: String,
    pub port: u16,
    pub endpoint: String,
    pub timeout_seconds: u64,
    pub batch_events: bool,
    pub source_id: String,
}

/// The endpoint that a source has where none is configured.
pub open spec fn default_endpoint(source_id: Seq<char>) -> Seq<char> {
    "/sources/"@ + source_id + "/events"@
}

/// The endpoint of a source.
pub fn endpoint_of(configured: &Option<String>, source_id: &str) -> (r: String)
    ensures
        r@ == (match *configured {
            Some(endpoint) => endpoint@,
            None => default_endpoint(source_id@),
        }),
{
    match configured {
        Some(endpoint) => endpoint.clone(),
        None => {
            let mut endpoint = "/sources/".to_owned();
            endpoint.append(source_id);
            endpoint.append("/events");
            endpoint
        },
    }
}

/// A base with a port and an endpoint.
pub open spec fn url_of(base: Seq<char>, port: u16, endpoint: Seq<char>) -> Seq<char> {
    base + ":"@ + decimal(port as nat) + endpoint
}

/// A base with a port and an endpoint.
pub fn url_text(base: &str, port: u16, endpoint: &str) -> (r: String)
    ensures
        r@ == url_of(base@, port, endpoint@),
{
    let mut url = base.to_owned();
    url.append(":");
    url.append(u64_text(port as u64).as_str());
    url.append(endpoint);
    url
}

impl HttpSourceChangeDispatcherSettings {
    /// The settings that a definition asks for: a timeout of thirty seconds, batches, and
    /// the source's own endpoint, where it does not say.
    pub fn new(definition: &HttpSourceChangeDispatcherDefinition, source_id: String) -> (r: Result<
        HttpSourceChangeDispatcherSettings,
        String,
    >)
        ensures
            r matches Ok(settings) && {
                &&& settings.url@ == definition.url@
                &&& settings.port == definition.port
                &&& settings.endpoint@ == (match definition.endpoint {
                    Some(endpoint) => endpoint@,
                    None => default_endpoint(source_id@),
                })
                &&& settings.timeout_seconds == (match definition.timeout_seconds {
                    Some(seconds) => seconds,
                    None => 30,
                })
                &&& settings.batch_events == (match definition.batch_events {
                    Some(batch) => batch,
                    None => true,
                })
                &&& settings.source_id@ == source_id@
            },
    {
        Ok(
            HttpSourceChangeDispatcherSettings {
                url: definition.url.clone(),
                port: definition.port,
                endpoint: endpoint_of(&definition.endpoint, source_id.as_str()),
                timeout_seconds: definition.timeout_seconds.unwrap_or(30),
                batch_events: definition.batch_events.unwrap_or(true),
                source_id,
            },
        )
    }

    /// The address that single changes are sent to.
    pub fn full_url(&self) -> (r: String)
        ensures
            r@ == url_of(self.url@, self.port, self.endpoint@),
    {
        url_text(self.url.as_str(), self.port, self.endpoint.as_str())
    }

    /// What is to be sent where for a list of changes.
    pub fn plan_dispatch(&self, events: &Vec<SourceChangeEvent>) -> (r: Result<
        HttpDispatchPlan,
        String,
    >)
        ensures
            match r {
                Ok(plan) => http_plan(
                    url_of(self.url@, self.port, self.endpoint@),
                    self.batch_events,
                    event_views(events@),
                ) == Ok::<HttpPlanView, Seq<char>>(plan@),
                Err(error) => http_plan(
                    url_of(self.url@, self.port, self.endpoint@),
                    self.batch_events,
                    event_views(events@),
                ) == Err::<HttpPlanView, Seq<char>>(error@),
            },
    {
        if events.len() == 0 {
            return Ok(HttpDispatchPlan::Nothing);
        }
        let url = self.full_url();
        let changes = convert_all(events);
        assert(changes@.len() == http_views(changes@).len());
        if self.batch_events {
            if changes.len() == 0 {
                return Err("Failed to convert events to Direct Format".to_owned());
            }
            let mut batch_url = url;
            batch_url.append("/batch");
            Ok(HttpDispatchPlan::Batch { url: batch_url, changes })
        } else {
            Ok(HttpDispatchPlan::Each { url, changes })
        }
    }
}

/// What is to be sent where.
#[derive(Debug)]
pub enum HttpDispatchPlan {
    Nothing,
    /// All changes in one request.
    Batch { url: String, changes: Vec<HttpChangeEvent> },
    /// Each change in a request of its own.
    Each { url: String, changes: Vec<HttpChangeEvent> },
}

/// What is to be sent where, in the model.
pub enum HttpPlanView {
    Nothing,
    Batch { url: Seq<char>, changes: Seq<HttpChangeView> },
    Each { url: Seq<char>, changes: Seq<HttpChangeView> },
}

impl View for HttpDispatchPlan {
    type V = HttpPlanView;

    open spec fn view(&self) -> HttpPlanView {
        match self {
            HttpDispatchPlan::Nothing => HttpPlanView::Nothing,
            HttpDispatchPlan::Batch { url, changes } => HttpPlanView::Batch {
                url: url@,
                changes: http_views(changes@),
            },
            HttpDispatchPlan::Each { url, changes } => HttpPlanView::Each {
                url: url@,
                changes: http_views(changes@),
            },
        }
    }
}

/// What is to be sent where for a list of changes. Changes without a direct format are left
/// out; a batch needs at least one that has it.
pub open spec fn http_plan(url: Seq<char>, batch: bool, events: Seq<ChangeEventView>) -> Result<
    HttpPlanView,
    Seq<char>,
> {
    let changes = direct_changes(events);
    if events.len() == 0 {
        Ok(HttpPlanView::Nothing)
    } else if !batch {
        Ok(HttpPlanView::Each { url, changes })
    } else if changes.len() == 0 {
        Err("Failed to convert events to Direct Format"@)
    } else {
        Ok(HttpPlanView::Batch { url: url + "/batch"@, changes })
    }
}

/// How many requests a plan takes.
pub open spec fn request_count(plan: HttpPlanView) -> nat {
    match plan {
        HttpPlanView::Nothing => 0,
        HttpPlanView::Batch { .. } => 1,
        HttpPlanView::Each { changes, .. } => changes.len(),
    }
}

impl HttpDispatchPlan {
    /// The requests of a plan, to be sent one after another up to the first that fails.
    pub fn requests(&self) -> (r: Sequence)
        ensures
            r@ == (SequenceView { count: request_count(self@), taken: 0, failure: None }),
    {
        match self {
            HttpDispatchPlan::Nothing => Sequence::new(0),
            HttpDispatchPlan::Batch { .. } => Sequence::new(1),
            HttpDispatchPlan::Each { changes, .. } => {
                assert(changes@.len() == http_views(changes@).len());
                Sequence::new(changes.len())
            },
        }
    }
}

/// What an answer with a status comes to.
pub fn check_response(is_success: bool, status: &str) -> (r: Result<(), String>)
    ensures
        match r {
            Ok(_) => is_success,
            Err(error) => !is_success && error@ == "HTTP request failed with status: "@ + status@,
        },
{
    if is_success {
        Ok(())
    } else {
        let mut message = "HTTP request failed with status: ".to_owned();
        message.append(status);
        Err(message)
    }
}

} // verus!
