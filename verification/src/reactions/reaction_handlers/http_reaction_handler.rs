//! Output of reactions that comes by HTTP.

use crate::ids::TestRunQueryId;
use crate::json::{
    json_get, json_get_array, json_get_str, json_u64, json_views, lemma_array_view,
    lemma_object_view, parse_json, parsed_json, Json, JsonView,
};
use crate::ordered::{entry_views, listing, to_map, OrderedMap};
use crate::test_repo_storage::models::{signed_bits, to_signed_bits, HttpReactionHandlerDefinition};
use crate::text::{
    contains_text, decimal, option_text, parse_u64, parse_unsigned, str_contains, u64_text,
};
use vstd::prelude::*;
use vstd::string::*;

verus! {

/// Where output is received.
#[derive(Debug)]
pub struct HttpReactionHandlerSettings {
    pub host: String,
    pub port: u16,
    pub path: String,
    pub correlation_header: Option<String>,
    pub test_run_query_id: TestRunQueryId,
}

impl HttpReactionHandlerSettings {
    /// The settings that a definition asks for: any address, port 8081 and the path
    /// `/reaction`, where it does not say.
    pub fn new(id: TestRunQueryId, definition: HttpReactionHandlerDefinition) -> (r: Result<
        HttpReactionHandlerSettings,
        String,
    >)
        ensures
            r matches Ok(settings) && {
                &&& settings.host@ == (match definition.host {
                    Some(host) => host@,
                    None => "0.0.0.0"@,
                })
                &&& settings.port == (match definition.port {
                    Some(port) => port,
                    None => 8081,
                })
                &&& settings.path@ == (match definition.path {
                    Some(path) => path@,
                    None => "/reaction"@,
                })
                &&& settings.correlation_header == definition.correlation_header
                &&& settings.test_run_query_id == id
            },
    {
        let host = match definition.host {
            Some(host) => host,
            None => "0.0.0.0".to_owned(),
        };
        let path = match definition.path {
            Some(path) => path,
            None => "/reaction".to_owned(),
        };
        Ok(
            HttpReactionHandlerSettings {
                host,
                port: definition.port.unwrap_or(8081),
                path,
                correlation_header: definition.correlation_header,
                test_run_query_id: id,
            },
        )
    }

    /// The address to listen on.
    pub fn address(&self) -> (r: String)
        ensures
            r@ == self.host@ + ":"@ + decimal(self.port as nat),
    {
        let mut address = self.host.clone();
        address.append(":");
        address.append(u64_text(self.port as u64).as_str());
        address
    }
}

/// The value of a request's body: the JSON that it is, or its text under `raw`.
pub open spec fn body_value(parsed: Option<JsonView>, body: Seq<char>) -> JsonView {
    match parsed {
        Some(json) => json,
        None => JsonView::Object(seq![("raw"@, JsonView::Text(body))]),
    }
}

/// The value of a request's body, given what reading it as JSON gave.
pub fn body_or_raw(parsed: Option<Json>, body: &str) -> (r: Json)
    ensures
        r@ == body_value(
            match parsed {
                Some(json) => Some(json@),
                None => None,
            },
            body@,
        ),
{
    broadcast use lemma_object_view;

    match parsed {
        Some(json) => json,
        None => {
            let fields = vec![("raw".to_owned(), Json::Text(body.to_owned()))];
            assert(entry_views(fields@) =~= seq![("raw"@, JsonView::Text(body@))]);
            Json::Object(fields)
        },
    }
}

/// The value of a request's body.
pub fn request_body(body: &str) -> (r: Json)
    ensures
        r@ == body_value(parsed_json(body@), body@),
{
    body_or_raw(parse_json(body), body)
}

/// A request, apart from its body.
#[derive(Debug)]
pub struct ReactionRequest {
    pub method: String,
    pub path: String,
    pub headers: OrderedMap<String, String>,
}

/// What a request, apart from its body, says.
pub struct RequestView {
    pub method: Seq<char>,
    pub path: Seq<char>,
    pub headers: Map<Seq<char>, Seq<char>>,
}

impl View for ReactionRequest {
    type V = RequestView;

    open spec fn view(&self) -> RequestView {
        RequestView { method: self.method@, path: self.path@, headers: self.headers@ }
    }
}

impl ReactionRequest {
    /// The headers are well formed.
    pub open spec fn wf(self) -> bool {
        self.headers.wf()
    }

    /// A request with these headers, of which a later one replaces an earlier one of its name.
    pub fn new(method: String, path: String, headers: Vec<(String, String)>) -> (r: ReactionRequest)
        ensures
            r.wf(),
            r@ == (RequestView {
                method: method@,
                path: path@,
                headers: to_map(entry_views(headers@)),
            }),
    {
        let ghost views = entry_views(headers@);
        let mut map: OrderedMap<String, String> = OrderedMap::new();
        assert(views.take(0) =~= Seq::empty());
        for header in it: headers
            invariant
                it.seq() == headers@,
                views == entry_views(headers@),
                map.wf(),
                map@ == to_map(views.take(it.index())),
        {
            let (name, value) = header;
            proof {
                let k = it.index();
                assert(views.take(k + 1).drop_last() =~= views.take(k));
                assert(views.take(k + 1).last() == (name@, value@));
            }
            map.insert(name, value);
        }
        assert(views.take(views.len() as int) =~= views);
        ReactionRequest { method, path, headers: map }
    }
}

/// A header as an optional text.
pub open spec fn header_of(request: RequestView, name: Seq<char>) -> Option<Seq<char>> {
    if request.headers.contains_key(name) {
        Some(request.headers[name])
    } else {
        None
    }
}

/// A request carries a batch: its path says so, or its body is an array or has results.
pub open spec fn is_batch(path: Seq<char>, body: JsonView) -> bool {
    contains_text(path, "/batch"@) || body is Array || json_get(body, "results"@) is Some
}

/// The batches of a body: the items of an array, or the body itself where it has an array of
/// results.
pub open spec fn batches_of(body: JsonView) -> Seq<JsonView> {
    match body {
        JsonView::Array(items) => items,
        _ => if json_get_array(body, "results"@) is Some {
            seq![body]
        } else {
            Seq::empty()
        },
    }
}

/// The results of a batch.
pub open spec fn results_of(batch: JsonView) -> Seq<JsonView> {
    match json_get_array(batch, "results"@) {
        Some(items) => items,
        None => Seq::empty(),
    }
}

/// What a result of a batch reports: the rows that are there say it.
pub open spec fn result_type(result: JsonView) -> Seq<char> {
    let before = json_get(result, "before"@) is Some;
    let after = json_get(result, "after"@) is Some;
    if before && after {
        "updated"@
    } else if after {
        "added"@
    } else if before {
        "deleted"@
    } else {
        "unknown"@
    }
}

/// An optional text as a value.
pub open spec fn optional_text(text: Option<Seq<char>>) -> JsonView {
    match text {
        Some(text) => JsonView::Text(text),
        None => JsonView::Null,
    }
}

/// A header as a field.
pub open spec fn header_field(header: (Seq<char>, Seq<char>)) -> (Seq<char>, JsonView) {
    (header.0, JsonView::Text(header.1))
}

/// Headers as an object.
pub open spec fn headers_json(headers: Map<Seq<char>, Seq<char>>) -> JsonView {
    let list = listing::<String, Seq<char>>(headers);
    JsonView::Object(Seq::new(list.len(), |i: int| header_field(list[i])))
}

/// What is kept of a request besides its body.
pub open spec fn metadata_of(request: RequestView, batch: bool) -> JsonView {
    JsonView::Object(
        seq![
            ("request_method"@, JsonView::Text(request.method)),
            ("request_path"@, JsonView::Text(request.path)),
            ("headers"@, headers_json(request.headers)),
            ("traceparent"@, optional_text(header_of(request, "traceparent"@))),
            ("tracestate"@, optional_text(header_of(request, "tracestate"@))),
            ("is_batch"@, JsonView::Bool(batch)),
        ],
    )
}

/// A reaction that was invoked.
#[derive(Debug)]
pub struct ReactionInvocation {
    pub value: Json,
    pub timestamp_ns: i64,
    pub invocation_id: String,
    pub metadata: Json,
}

/// What an invoked reaction says.
pub struct InvocationView {
    pub value: JsonView,
    pub timestamp_ns: i64,
    pub invocation_id: Seq<char>,
    pub metadata: JsonView,
}

impl View for ReactionInvocation {
    type V = InvocationView;

    open spec fn view(&self) -> InvocationView {
        InvocationView {
            value: self.value@,
            timestamp_ns: self.timestamp_ns,
            invocation_id: self.invocation_id@,
            metadata: self.metadata@,
        }
    }
}

/// The views of a list of invocations.
pub open spec fn invocation_views(list: Seq<ReactionInvocation>) -> Seq<InvocationView> {
    Seq::new(list.len(), |i: int| list[i]@)
}

/// What names an invocation.
pub open spec fn invocation_name(query_id: Seq<char>, sequence: nat) -> Seq<char> {
    query_id + "-"@ + decimal(sequence)
}

/// The query that a batch is about.
pub open spec fn batch_query(batch: JsonView, default_query: Seq<char>) -> Seq<char> {
    match json_get_str(batch, "query_id"@) {
        Some(id) => id,
        None => default_query,
    }
}

/// The invocation that a result of a batch reports.
pub open spec fn batch_invocation(
    request: RequestView,
    query_id: Seq<char>,
    now_ns: u64,
    result: JsonView,
    batch_index: int,
    result_index: int,
) -> InvocationView {
    InvocationView {
        value: JsonView::Object(
            seq![
                ("query_id"@, JsonView::Text(query_id)),
                ("reaction_type"@, JsonView::Text(result_type(result))),
                ("request_body"@, result),
                ("batch_index"@, JsonView::Integer(batch_index)),
                ("result_index"@, JsonView::Integer(result_index)),
            ],
        ),
        timestamp_ns: signed_bits(now_ns),
        invocation_id: invocation_name(query_id, (batch_index * 1000 + result_index) as nat),
        metadata: metadata_of(request, true),
    }
}

/// The invocations that the first results of a batch report.
pub open spec fn batch_invocations(
    request: RequestView,
    query_id: Seq<char>,
    now_ns: u64,
    results: Seq<JsonView>,
    batch_index: int,
) -> Seq<InvocationView> {
    Seq::new(
        results.len(),
        |i: int| batch_invocation(request, query_id, now_ns, results[i], batch_index, i),
    )
}

/// The invocations that a list of batches reports, in their order.
pub open spec fn all_invocations(
    request: RequestView,
    default_query: Seq<char>,
    now_ns: u64,
    batches: Seq<JsonView>,
) -> Seq<InvocationView>
    decreases batches.len(),
{
    if batches.len() == 0 {
        Seq::empty()
    } else {
        let last = batches.last();
        all_invocations(request, default_query, now_ns, batches.drop_last()) + batch_invocations(
            request,
            batch_query(last, default_query),
            now_ns,
            results_of(last),
            batches.len() - 1,
        )
    }
}

/// The number of a single invocation: from the correlation header where one is configured,
/// from the body otherwise, and zero where there is none.
pub open spec fn sequence_of(
    request: RequestView,
    body: JsonView,
    correlation_header: Option<Seq<char>>,
) -> nat {
    match correlation_header {
        Some(name) => match header_of(request, name) {
            Some(text) => match parse_unsigned(text, u64::MAX as nat) {
                Some(n) => n,
                None => 0,
            },
            None => 0,
        },
        None => match json_get(body, "sequence"@) {
            Some(v) => match json_u64(v) {
                Some(n) => n as nat,
                None => 0,
            },
            None => 0,
        },
    }
}

/// What a single invocation reports: its path says so, or its body.
pub open spec fn single_type(path: Seq<char>, body: JsonView) -> Seq<char> {
    if contains_text(path, "/added"@) {
        "added"@
    } else if contains_text(path, "/updated"@) {
        "updated"@
    } else if contains_text(path, "/deleted"@) {
        "deleted"@
    } else {
        match json_get_str(body, "type"@) {
            Some(t) => t,
            None => "unknown"@,
        }
    }
}

/// The invocation that a request without a batch reports.
pub open spec fn single_invocation(
    request: RequestView,
    query_id: Seq<char>,
    correlation_header: Option<Seq<char>>,
    now_ns: u64,
    body: JsonView,
) -> InvocationView {
    InvocationView {
        value: JsonView::Object(
            seq![
                ("query_id"@, JsonView::Text(query_id)),
                ("reaction_type"@, JsonView::Text(single_type(request.path, body))),
                ("request_body"@, body),
            ],
        ),
        timestamp_ns: signed_bits(now_ns),
        invocation_id: invocation_name(
            query_id,
            sequence_of(request, body, correlation_header),
        ),
        metadata: metadata_of(request, false),
    }
}

/// The invocations that a request reports.
pub open spec fn invocations_of(
    request: RequestView,
    query_id: Seq<char>,
    correlation_header: Option<Seq<char>>,
    now_ns: u64,
    body: JsonView,
) -> Seq<InvocationView> {
    if is_batch(request.path, body) {
        all_invocations(request, query_id, now_ns, batches_of(body))
    } else {
        seq![single_invocation(request, query_id, correlation_header, now_ns, body)]
    }
}

/// The numbers of a batch's invocations fit their type.
pub open spec fn numbers_fit(batches: Seq<JsonView>) -> bool {
    forall|i: int|
        0 <= i < batches.len() ==> i * 1000 + (results_of(#[trigger] batches[i])).len() <= u64::MAX
}

fn optional_text_value(text: Option<&String>) -> (r: Json)
    ensures
        r@ == optional_text(
            match text {
                Some(text) => Some(text@),
                None => None,
            },
        ),
{
    match text {
        Some(text) => Json::Text(text.clone()),
        None => Json::Null,
    }
}

impl ReactionRequest {
    /// Headers as an object.
    fn headers_value(&self) -> (r: Json)
        requires
            self.wf(),
        ensures
            r@ == headers_json(self@.headers),
    {
        broadcast use lemma_object_view;

        let entries = self.headers.entries();
        let ghost list = entry_views(entries@);
        let mut fields: Vec<(String, Json)> = Vec::new();
        let mut i: usize = 0;
        while i < entries.len()
            invariant
                0 <= i <= entries@.len(),
                list == entry_views(entries@),
                fields@.len() == i,
                forall|j: int|
                    0 <= j < i ==> ((#[trigger] fields@[j]).0@, fields@[j].1@) == header_field(list[j]),
            decreases entries@.len() - i,
        {
            fields.push((entries[i].0.clone(), Json::Text(entries[i].1.clone())));
            i = i + 1;
        }
        assert(entry_views(fields@) =~= headers_json(self@.headers)->Object_0);
        Json::Object(fields)
    }

    /// A header.
    fn header(&self, name: &str) -> (r: Option<&String>)
        requires
            self.wf(),
        ensures
            match r {
                Some(value) => header_of(self@, name@) == Some(value@),
                None => header_of(self@, name@) is None,
            },
    {
        self.headers.get(&name.to_owned())
    }

    /// What is kept of a request besides its body.
    fn metadata(&self, batch: bool) -> (r: Json)
        requires
            self.wf(),
        ensures
            r@ == metadata_of(self@, batch),
    {
        broadcast use lemma_object_view;

        let fields = vec![
            ("request_method".to_owned(), Json::Text(self.method.clone())),
            ("request_path".to_owned(), Json::Text(self.path.clone())),
            ("headers".to_owned(), self.headers_value()),
            ("traceparent".to_owned(), optional_text_value(self.header("traceparent"))),
            ("tracestate".to_owned(), optional_text_value(self.header("tracestate"))),
            ("is_batch".to_owned(), Json::Bool(batch)),
        ];
        assert(entry_views(fields@) =~= metadata_of(self@, batch)->Object_0);
        Json::Object(fields)
    }
}

/// Whether a request carries a batch.
pub fn carries_batch(path: &str, body: &Json) -> (r: bool)
    ensures
        r == is_batch(path@, body@),
{
    str_contains(path, "/batch") || body.is_array() || body.get("results").is_some()
}

/// What a result of a batch reports.
fn result_type_text(result: &Json) -> (r: &'static str)
    ensures
        r@ == result_type(result@),
{
    let before = result.get("before").is_some();
    let after = result.get("after").is_some();
    if before && after {
        "updated"
    } else if after {
        "added"
    } else if before {
        "deleted"
    } else {
        "unknown"
    }
}

/// What names an invocation.
fn invocation_text(query_id: &str, sequence: u64) -> (r: String)
    ensures
        r@ == invocation_name(query_id@, sequence as nat),
{
    let mut name = query_id.to_owned();
    name.append("-");
    name.append(u64_text(sequence).as_str());
    name
}

/// The invocation that a result of a batch reports.
fn make_batch_invocation(
    request: &ReactionRequest,
    query_id: &str,
    now_ns: u64,
    result: &Json,
    batch_index: u64,
    result_index: u64,
) -> (r: ReactionInvocation)
    requires
        request.wf(),
        batch_index * 1000 + result_index <= u64::MAX,
    ensures
        r@ == batch_invocation(
            request@,
            query_id@,
            now_ns,
            result@,
            batch_index as int,
            result_index as int,
        ),
{
    broadcast use lemma_object_view;

    let fields = vec![
        ("query_id".to_owned(), Json::Text(query_id.to_owned())),
        ("reaction_type".to_owned(), Json::Text(result_type_text(result).to_owned())),
        ("request_body".to_owned(), result.copy()),
        ("batch_index".to_owned(), Json::Unsigned(batch_index)),
        ("result_index".to_owned(), Json::Unsigned(result_index)),
    ];
    let ghost expected = batch_invocation(
        request@,
        query_id@,
        now_ns,
        result@,
        batch_index as int,
        result_index as int,
    );
    assert(entry_views(fields@) =~= expected.value->Object_0);
    ReactionInvocation {
        value: Json::Object(fields),
        timestamp_ns: to_signed_bits(now_ns),
        invocation_id: invocation_text(query_id, batch_index * 1000 + result_index),
        metadata: request.metadata(true),
    }
}

/// Adds the invocations that a batch reports.
fn add_batch(
    request: &ReactionRequest,
    default_query: &str,
    now_ns: u64,
    batch: &Json,
    batch_index: u64,
    out: &mut Vec<ReactionInvocation>,
)
    requires
        request.wf(),
        batch_index * 1000 + results_of(batch@).len() <= u64::MAX,
    ensures
        invocation_views(final(out)@) == invocation_views(old(out)@) + batch_invocations(
            request@,
            batch_query(batch@, default_query@),
            now_ns,
            results_of(batch@),
            batch_index as int,
        ),
{
    let ghost start = invocation_views(out@);
    let query_id = match batch.get_str("query_id") {
        Some(id) => id,
        None => default_query,
    };
    let ghost expected = batch_invocations(
        request@,
        query_id@,
        now_ns,
        results_of(batch@),
        batch_index as int,
    );
    match batch.get_array("results") {
        Some(results) => {
            let mut i: usize = 0;
            assert(start =~= start + expected.take(0));
            while i < results.len()
                invariant
                    0 <= i <= results@.len(),
                    request.wf(),
                    results_of(batch@) == json_views(results@),
                    batch_index * 1000 + results@.len() <= u64::MAX,
                    expected == batch_invocations(
                        request@,
                        query_id@,
                        now_ns,
                        results_of(batch@),
                        batch_index as int,
                    ),
                    invocation_views(out@) == start + expected.take(i as int),
                decreases results@.len() - i,
            {
                let ghost before = out@;
                out.push(
                    make_batch_invocation(
                        request,
                        query_id,
                        now_ns,
                        &results[i],
                        batch_index,
                        i as u64,
                    ),
                );
                proof {
                    assert(results_of(batch@)[i as int] == results@[i as int]@);
                    assert(out@.last()@ == expected[i as int]);
                    assert(invocation_views(out@) =~= invocation_views(before).push(
                        expected[i as int],
                    ));
                    assert(start + expected.take(i + 1) =~= (start + expected.take(i as int)).push(
                        expected[i as int],
                    ));
                }
                i = i + 1;
            }
            assert(expected.take(expected.len() as int) =~= expected);
        },
        None => {
            assert(invocation_views(out@) =~= start + expected);
        },
    }
}

/// The number of a single invocation.
fn sequence_number(
    request: &ReactionRequest,
    body: &Json,
    correlation_header: &Option<String>,
) -> (r: u64)
    requires
        request.wf(),
    ensures
        r as nat == sequence_of(
            request@,
            body@,
            option_text(*correlation_header),
        ),
{
    match correlation_header {
        Some(name) => match request.header(name.as_str()) {
            Some(text) => match parse_u64(text.as_str()) {
                Some(n) => n,
                None => 0,
            },
            None => 0,
        },
        None => match body.get("sequence") {
            Some(v) => match v.as_u64() {
                Some(n) => n,
                None => 0,
            },
            None => 0,
        },
    }
}

/// What a single invocation reports.
fn single_type_text(path: &str, body: &Json) -> (r: String)
    ensures
        r@ == single_type(path@, body@),
{
    if str_contains(path, "/added") {
        "added".to_owned()
    } else if str_contains(path, "/updated") {
        "updated".to_owned()
    } else if str_contains(path, "/deleted") {
        "deleted".to_owned()
    } else {
        match body.get_str("type") {
            Some(t) => t.to_owned(),
            None => "unknown".to_owned(),
        }
    }
}

/// Whether the numbers of a batch's invocations fit their type.
pub fn can_number(body: &Json) -> (r: bool)
    ensures
        r == numbers_fit(batches_of(body@)),
{
    broadcast use lemma_array_view;

    match body {
        Json::Array(items) => {
            let ghost batches = json_views(items@);
            let mut i: usize = 0;
            while i < items.len()
                invariant
                    0 <= i <= items@.len(),
                    batches == json_views(items@),
                    batches == batches_of(body@),
                    forall|k: int|
                        0 <= k < i ==> k * 1000 + (results_of(#[trigger] batches[k])).len()
                            <= u64::MAX,
                decreases items@.len() - i,
            {
                let count: usize = match items[i].get_array("results") {
                    Some(results) => results.len(),
                    None => 0,
                };
                assert(batches[i as int] == items@[i as int]@);
                if i as u128 * 1000 + count as u128 > u64::MAX as u128 {
                    return false;
                }
                i = i + 1;
            }
            true
        },
        _ => {
            match body.get_array("results") {
                Some(results) => {
                    assert(results.len() <= u64::MAX);
                },
                None => {},
            }
            true
        },
    }
}

/// The invocations that a request reports.
pub fn handle_reaction(
    settings: &HttpReactionHandlerSettings,
    request: &ReactionRequest,
    body: &Json,
    now_ns: u64,
) -> (r: Vec<ReactionInvocation>)
    requires
        request.wf(),
        is_batch(request@.path, body@) ==> numbers_fit(batches_of(body@)),
    ensures
        invocation_views(r@) == invocations_of(
            request@,
            settings.test_run_query_id.test_query_id@,
            option_text(settings.correlation_header),
            now_ns,
            body@,
        ),
{
    broadcast use {lemma_array_view, lemma_object_view};

    let query_id = settings.test_run_query_id.test_query_id.as_str();
    let mut out: Vec<ReactionInvocation> = Vec::new();
    if carries_batch(request.path.as_str(), body) {
        let ghost batches = batches_of(body@);
        assert(invocation_views(out@) =~= Seq::<InvocationView>::empty());
        match body {
            Json::Array(items) => {
                let mut i: usize = 0;
                assert(batches.take(0) =~= Seq::<JsonView>::empty());
                while i < items.len()
                    invariant
                        0 <= i <= items@.len(),
                        request.wf(),
                        batches == json_views(items@),
                        numbers_fit(batches),
                        invocation_views(out@) == all_invocations(
                            request@,
                            query_id@,
                            now_ns,
                            batches.take(i as int),
                        ),
                    decreases items@.len() - i,
                {
                    proof {
                        assert(batches[i as int] == items@[i as int]@);
                        assert(batches.take(i + 1).drop_last() =~= batches.take(i as int));
                    }
                    add_batch(request, query_id, now_ns, &items[i], i as u64, &mut out);
                    i = i + 1;
                }
                assert(batches.take(batches.len() as int) =~= batches);
            },
            _ => {
                if body.get_array("results").is_some() {
                    proof {
                        assert(batches =~= seq![body@]);
                        assert(batches.drop_last() =~= Seq::<JsonView>::empty());
                        assert(batches[0] == body@);
                        assert(all_invocations(request@, query_id@, now_ns, batches.drop_last())
                            =~= Seq::<InvocationView>::empty());
                    }
                    add_batch(request, query_id, now_ns, body, 0, &mut out);
                } else {
                    assert(batches =~= Seq::<JsonView>::empty());
                }
            },
        }
        return out;
    }
    let sequence = sequence_number(request, body, &settings.correlation_header);
    let fields = vec![
        ("query_id".to_owned(), Json::Text(query_id.to_owned())),
        (
            "reaction_type".to_owned(),
            Json::Text(single_type_text(request.path.as_str(), body)),
        ),
        ("request_body".to_owned(), body.copy()),
    ];
    let ghost expected = single_invocation(
        request@,
        query_id@,
        option_text(settings.correlation_header),
        now_ns,
        body@,
    );
    assert(entry_views(fields@) =~= expected.value->Object_0);
    out.push(
        ReactionInvocation {
            value: Json::Object(fields),
            timestamp_ns: to_signed_bits(now_ns),
            invocation_id: invocation_text(query_id, sequence),
            metadata: request.metadata(false),
        },
    );
    assert(invocation_views(out@) =~= seq![expected]);
    out
}

/// The answer to a request: whether it succeeded, and the text to send.
pub fn response(batch: bool, sent: bool) -> (r: (bool, &'static str))
    ensures
        r.0 == (batch || sent),
        r.1@ == (if batch {
            "Batch processed"@
        } else if sent {
            "OK"@
        } else {
            "Internal Instance Error"@
        }),
{
    if batch {
        (true, "Batch processed")
    } else if sent {
        (true, "OK")
    } else {
        (false, "Internal Instance Error")
    }
}

} // verus!
