//! The format in which an HTTP source takes changes.

use crate::json::{
    json_get, json_get_array, json_get_str, json_views, lemma_object_view, Json, JsonView,
};
use crate::ordered::entry_views;
use crate::scripts::{event_views, ChangeEventView, SourceChangeEvent};
use crate::test_repo_storage::models::{signed_bits, to_signed_bits};
use crate::text::{option_text, str_equal, texts};
use vstd::prelude::*;

verus! {

/// A node or a relation.
#[derive(Debug)]
pub struct DirectElement {
    pub element_type: String,
    pub id: String,
    pub labels: Vec<String>,
    pub properties: Vec<(String, Json)>,
    pub from: Option<String>,
    pub to: Option<String>,
}

/// A change: an element that is inserted or updated, or the name of one that is deleted.
#[derive(Debug)]
pub struct HttpChangeEvent {
    pub operation: String,
    pub element: Option<DirectElement>,
    pub id: Option<String>,
    pub labels: Option<Vec<String>>,
    pub timestamp: Option<i64>,
}

/// What a node or a relation says.
pub struct DirectElementView {
    pub element_type: Seq<char>,
    pub id: Seq<char>,
    pub labels: Seq<Seq<char>>,
    pub properties: Seq<(Seq<char>, JsonView)>,
    pub from: Option<Seq<char>>,
    pub to: Option<Seq<char>>,
}

/// What a change says.
pub struct HttpChangeView {
    pub operation: Seq<char>,
    pub element: Option<DirectElementView>,
    pub id: Option<Seq<char>>,
    pub labels: Option<Seq<Seq<char>>>,
    pub timestamp: Option<i64>,
}

impl View for DirectElement {
    type V = DirectElementView;

    open spec fn view(&self) -> DirectElementView {
        DirectElementView {
            element_type: self.element_type@,
            id: self.id@,
            labels: texts(self.labels@),
            properties: entry_views(self.properties@),
            from: option_text(self.from),
            to: option_text(self.to),
        }
    }
}

impl View for HttpChangeEvent {
    type V = HttpChangeView;

    open spec fn view(&self) -> HttpChangeView {
        HttpChangeView {
            operation: self.operation@,
            element: match self.element {
                Some(element) => Some(element@),
                None => None,
            },
            id: option_text(self.id),
            labels: match self.labels {
                Some(labels) => Some(texts(labels@)),
                None => None,
            },
            timestamp: self.timestamp,
        }
    }
}

/// The texts among a list of values.
pub open spec fn texts_among(items: Seq<JsonView>) -> Seq<Seq<char>>
    decreases items.len(),
{
    if items.len() == 0 {
        Seq::empty()
    } else {
        let front = texts_among(items.drop_last());
        match items.last() {
            JsonView::Text(s) => front.push(s),
            _ => front,
        }
    }
}

/// The labels of an element, where it has an array of them.
pub open spec fn labels_in(element: JsonView) -> Option<Seq<Seq<char>>> {
    match json_get_array(element, "labels"@) {
        Some(items) => Some(texts_among(items)),
        None => None,
    }
}

/// The labels of an element, none where it has no array of them.
pub open spec fn labels_or_none(element: JsonView) -> Seq<Seq<char>> {
    match labels_in(element) {
        Some(labels) => labels,
        None => Seq::empty(),
    }
}

/// The properties of an element, none where it has no object of them.
pub open spec fn properties_in(element: JsonView) -> Seq<(Seq<char>, JsonView)> {
    match json_get(element, "properties"@) {
        Some(JsonView::Object(fields)) => fields,
        _ => Seq::empty(),
    }
}

/// The element that a value describes. With both ends it is a relation; otherwise the table
/// says what it is.
pub open spec fn direct_element(element: JsonView, table: Seq<char>) -> Option<DirectElementView> {
    let from = json_get_str(element, "start_id"@);
    let to = json_get_str(element, "end_id"@);
    match json_get_str(element, "id"@) {
        Some(id) => Some(
            DirectElementView {
                element_type: if (from is Some && to is Some) || table == "relation"@ || table
                    == "edge"@ {
                    "relation"@
                } else {
                    "node"@
                },
                id,
                labels: labels_or_none(element),
                properties: properties_in(element),
                from,
                to,
            },
        ),
        None => None,
    }
}

/// A change in the direct format. There is none for an unknown operation or an element
/// without a name.
pub open spec fn direct_change(event: ChangeEventView) -> Option<HttpChangeView> {
    let timestamp = Some(signed_bits(event.reactivator_start_ns));
    if event.op == "d"@ {
        match json_get_str(event.before, "id"@) {
            Some(id) => Some(
                HttpChangeView {
                    operation: "delete"@,
                    element: None,
                    id: Some(id),
                    labels: labels_in(event.before),
                    timestamp,
                },
            ),
            None => None,
        }
    } else if event.op == "i"@ || event.op == "u"@ {
        match direct_element(event.after, event.table) {
            Some(element) => Some(
                HttpChangeView {
                    operation: if event.op == "i"@ {
                        "insert"@
                    } else {
                        "update"@
                    },
                    element: Some(element),
                    id: None,
                    labels: None,
                    timestamp,
                },
            ),
            None => None,
        }
    } else {
        None
    }
}

/// The changes in the direct format, without those that have none.
pub open spec fn direct_changes(events: Seq<ChangeEventView>) -> Seq<HttpChangeView>
    decreases events.len(),
{
    if events.len() == 0 {
        Seq::empty()
    } else {
        let front = direct_changes(events.drop_last());
        match direct_change(events.last()) {
            Some(change) => front.push(change),
            None => front,
        }
    }
}

/// The views of a list of changes.
pub open spec fn http_views(changes: Seq<HttpChangeEvent>) -> Seq<HttpChangeView> {
    Seq::new(changes.len(), |i: int| changes[i]@)
}

/// The texts among a list of values.
pub fn collect_texts(items: &Vec<Json>) -> (r: Vec<String>)
    ensures
        texts(r@) == texts_among(json_views(items@)),
{
    let ghost models = json_views(items@);
    let mut r: Vec<String> = Vec::new();
    let mut i: usize = 0;
    proof {
        assert(models.take(0) =~= Seq::<JsonView>::empty());
        assert(texts(r@) =~= Seq::<Seq<char>>::empty());
    }
    while i < items.len()
        invariant
            0 <= i <= items@.len(),
            models == json_views(items@),
            texts(r@) == texts_among(models.take(i as int)),
        decreases items@.len() - i,
    {
        proof {
            assert(models.take(i + 1).drop_last() =~= models.take(i as int));
            assert(models.take(i + 1).last() == items@[i as int]@);
        }
        match items[i].as_str() {
            Some(s) => {
                let ghost before = texts(r@);
                r.push(s.to_owned());
                assert(texts(r@) =~= before.push(s@));
            },
            None => {},
        }
        i = i + 1;
    }
    assert(models.take(models.len() as int) =~= models);
    r
}

/// The labels of an element, where it has an array of them.
fn find_labels(element: &Json) -> (r: Option<Vec<String>>)
    ensures
        match r {
            Some(labels) => labels_in(element@) == Some(texts(labels@)),
            None => labels_in(element@) is None,
        },
{
    match element.get_array("labels") {
        Some(items) => Some(collect_texts(items)),
        None => None,
    }
}

/// The labels of an element, none where it has no array of them.
pub fn extract_labels(element: &Json) -> (r: Vec<String>)
    ensures
        texts(r@) == labels_or_none(element@),
{
    match find_labels(element) {
        Some(labels) => labels,
        None => {
            let r: Vec<String> = Vec::new();
            assert(texts(r@) =~= Seq::<Seq<char>>::empty());
            r
        },
    }
}

/// A copy of the fields of an object.
fn copy_fields(fields: &Vec<(String, Json)>) -> (r: Vec<(String, Json)>)
    ensures
        entry_views(r@) == entry_views(fields@),
{
    let mut r: Vec<(String, Json)> = Vec::new();
    let mut i: usize = 0;
    while i < fields.len()
        invariant
            0 <= i <= fields@.len(),
            r@.len() == i,
            forall|j: int|
                0 <= j < i ==> (#[trigger] r@[j]).0@ == fields@[j].0@ && r@[j].1@ == fields@[j].1@,
        decreases fields@.len() - i,
    {
        r.push((fields[i].0.clone(), fields[i].1.copy()));
        i = i + 1;
    }
    assert(entry_views(r@) =~= entry_views(fields@));
    r
}

/// The properties of an element, none where it has no object of them.
fn find_properties(element: &Json) -> (r: Vec<(String, Json)>)
    ensures
        entry_views(r@) == properties_in(element@),
{
    broadcast use lemma_object_view;

    match element.get("properties") {
        Some(Json::Object(fields)) => copy_fields(fields),
        _ => {
            let r: Vec<(String, Json)> = Vec::new();
            assert(entry_views(r@) =~= Seq::<(Seq<char>, JsonView)>::empty());
            r
        },
    }
}

/// An owned copy of a text.
fn own(text: Option<&str>) -> (r: Option<String>)
    ensures
        option_text(r) == (match text {
            Some(text) => Some(text@),
            None => None,
        }),
{
    match text {
        Some(text) => Some(text.to_owned()),
        None => None,
    }
}

/// The element that a value describes.
fn convert_element(element: &Json, table: &str) -> (r: Option<DirectElement>)
    ensures
        match r {
            Some(e) => direct_element(element@, table@) == Some(e@),
            None => direct_element(element@, table@) is None,
        },
{
    let id = match element.get_str("id") {
        Some(id) => id.to_owned(),
        None => {
            return None;
        },
    };
    let from = element.get_str("start_id");
    let to = element.get_str("end_id");
    let element_type = if (from.is_some() && to.is_some()) || str_equal(table, "relation")
        || str_equal(table, "edge") {
        "relation"
    } else {
        "node"
    };
    Some(
        DirectElement {
            element_type: element_type.to_owned(),
            id,
            labels: extract_labels(element),
            properties: find_properties(element),
            from: own(from),
            to: own(to),
        },
    )
}

/// A change in the direct format, where there is one.
pub fn convert_to_direct_format(event: &SourceChangeEvent) -> (r: Option<HttpChangeEvent>)
    ensures
        match r {
            Some(change) => direct_change(event@) == Some(change@),
            None => direct_change(event@) is None,
        },
{
    proof {
        reveal_strlit("d");
        reveal_strlit("i");
        reveal_strlit("u");
        assert("d"@[0] == 'd');
        assert("i"@[0] == 'i');
        assert("u"@[0] == 'u');
    }
    let op = event.op.as_str();
    let timestamp = Some(to_signed_bits(event.reactivator_start_ns));
    if str_equal(op, "d") {
        let before = &event.payload.before;
        return match before.get_str("id") {
            Some(id) => Some(
                HttpChangeEvent {
                    operation: "delete".to_owned(),
                    element: None,
                    id: Some(id.to_owned()),
                    labels: find_labels(before),
                    timestamp,
                },
            ),
            None => None,
        };
    }
    let operation = if str_equal(op, "i") {
        "insert"
    } else if str_equal(op, "u") {
        "update"
    } else {
        return None;
    };
    match convert_element(&event.payload.after, event.payload.source.table.as_str()) {
        Some(element) => Some(
            HttpChangeEvent {
                operation: operation.to_owned(),
                element: Some(element),
                id: None,
                labels: None,
                timestamp,
            },
        ),
        None => None,
    }
}

/// The changes in the direct format, without those that have none.
pub fn convert_all(events: &Vec<SourceChangeEvent>) -> (r: Vec<HttpChangeEvent>)
    ensures
        http_views(r@) == direct_changes(event_views(events@)),
{
    let ghost views = event_views(events@);
    let mut r: Vec<HttpChangeEvent> = Vec::new();
    let mut i: usize = 0;
    proof {
        assert(views.take(0) =~= Seq::<ChangeEventView>::empty());
        assert(http_views(r@) =~= Seq::<HttpChangeView>::empty());
    }
    while i < events.len()
        invariant
            0 <= i <= events@.len(),
            views == event_views(events@),
            http_views(r@) == direct_changes(views.take(i as int)),
        decreases events@.len() - i,
    {
        proof {
            assert(views.take(i + 1).drop_last() =~= views.take(i as int));
            assert(views.take(i + 1).last() == events@[i as int]@);
        }
        match convert_to_direct_format(&events[i]) {
            Some(change) => {
                let ghost before = http_views(r@);
                r.push(change);
                assert(http_views(r@) =~= before.push(change@));
            },
            None => {},
        }
        i = i + 1;
    }
    assert(views.take(views.len() as int) =~= views);
    r
}

/// A relation in a source's table stays one, whether its ends are given or not, and
/// everything with both ends is one.
pub proof fn lemma_relations_stay_relations(element: JsonView, table: Seq<char>)
    requires
        json_get_str(element, "id"@) is Some,
        table == "relation"@ || (json_get_str(element, "start_id"@) is Some && json_get_str(
            element,
            "end_id"@,
        ) is Some),
    ensures
        direct_element(element, table) matches Some(e) && e.element_type == "relation"@,
{
}

} // verus!
