//! What holds of a change whichever transport brings it.

use crate::json::{json_get, json_get_array, json_get_str, JsonView};
use crate::ordered::lemma_to_map;
use crate::reactions::output_loggers::final_state::{
    batch_shaped, change_of, changes_of, named_change_of, operation_of, single,
};
use crate::reactions::reaction_handlers::http_reaction_handler::{
    batch_invocation, result_type, single_invocation, RequestView,
};
use crate::text::ascii_lower;
use vstd::prelude::*;

verus! {

/// A value names its operation, or has rows and none that is null.
pub open spec fn says_what_changed(json: JsonView) -> bool {
    let before = json_get(json, "before"@);
    let after = json_get(json, "after"@);
    ||| operation_of(json) is Some
    ||| (before is Some || after is Some) && before != Some(JsonView::Null) && after != Some(
        JsonView::Null,
    )
}

/// A field that no later field replaces is what its key stands for.
proof fn lemma_field(fields: Seq<(Seq<char>, JsonView)>, i: int)
    requires
        0 <= i < fields.len(),
        forall|j: int| i < j < fields.len() ==> (#[trigger] fields[j]).0 != fields[i].0,
    ensures
        json_get(JsonView::Object(fields), fields[i].0) == Some(fields[i].1),
    decreases fields.len(),
{
    let front = fields.drop_last();
    if i < front.len() {
        assert(fields[fields.len() - 1].0 != fields[i].0);
        assert forall|j: int| i < j < front.len() implies (#[trigger] front[j]).0 != front[i].0 by {
            assert(front[j] == fields[j]);
        }
        lemma_field(front, i);
        assert(front[i] == fields[i]);
    }
}

/// A key that no field has stands for nothing.
proof fn lemma_no_field(fields: Seq<(Seq<char>, JsonView)>, key: Seq<char>)
    requires
        forall|j: int| 0 <= j < fields.len() ==> (#[trigger] fields[j]).0 != key,
    ensures
        json_get(JsonView::Object(fields), key) is None,
{
    lemma_to_map(fields);
}

/// What a recorded request describes is decided by its body and, where that names no
/// operation, by the type of the reaction.
proof fn lemma_recorded_request(
    fields: Seq<(Seq<char>, JsonView)>,
    reaction_type: Seq<char>,
    body: JsonView,
)
    requires
        fields.len() >= 3,
        fields[0].0 == "query_id"@,
        fields[1] == ("reaction_type"@, JsonView::Text(reaction_type)),
        fields[2] == ("request_body"@, body),
        fields.len() > 3 ==> fields.len() == 5 && fields[3].0 == "batch_index"@ && fields[4].0
            == "result_index"@,
        fields.len() != 4,
    ensures
        changes_of(JsonView::Object(fields)) == single(
            change_of(
                body,
                match operation_of(body) {
                    Some(op) => Some(op),
                    None => Some(reaction_type),
                },
            ),
        ),
{
    reveal_strlit("query_id");
    reveal_strlit("reaction_type");
    reveal_strlit("request_body");
    reveal_strlit("batch_index");
    reveal_strlit("result_index");
    reveal_strlit("kind");
    reveal_strlit("result");
    reveal_strlit("results");
    reveal_strlit("addedResults");
    reveal_strlit("updatedResults");
    reveal_strlit("deletedResults");
    assert("query_id"@.len() == 8 && "reaction_type"@.len() == 13 && "request_body"@.len() == 12);
    assert("batch_index"@.len() == 11 && "result_index"@.len() == 12);
    assert("kind"@.len() == 4 && "result"@.len() == 6 && "results"@.len() == 7);
    assert("addedResults"@.len() == 12 && "updatedResults"@.len() == 14 && "deletedResults"@.len()
        == 14);
    assert("addedResults"@[0] == 'a' && "request_body"@[0] == 'r' && "result_index"@[0] == 'r');
    assert("request_body"@[2] == 'q' && "result_index"@[2] == 's');
    let payload = JsonView::Object(fields);
    lemma_no_field(fields, "kind"@);
    lemma_no_field(fields, "result"@);
    lemma_no_field(fields, "results"@);
    lemma_no_field(fields, "addedResults"@);
    lemma_no_field(fields, "updatedResults"@);
    lemma_no_field(fields, "deletedResults"@);
    lemma_field(fields, 1);
    lemma_field(fields, 2);
    assert(json_get_str(payload, "kind"@) is None);
    assert(json_get_array(payload, "results"@) is None);
    assert(!batch_shaped(payload));
    assert(json_get_str(payload, "reaction_type"@) == Some(reaction_type));
}

/// The operations that the rows of a result are reported as are in lower case.
proof fn lemma_reported_types()
    ensures
        ascii_lower("updated"@) == "updated"@,
        ascii_lower("added"@) == "added"@,
        ascii_lower("deleted"@) == "deleted"@,
        "updated"@ != "add"@ && "updated"@ != "added"@ && "updated"@ != "insert"@,
        "deleted"@ != "add"@ && "deleted"@ != "added"@ && "deleted"@ != "insert"@,
        "deleted"@ != "update"@ && "deleted"@ != "updated"@,
{
    reveal_strlit("updated");
    reveal_strlit("added");
    reveal_strlit("deleted");
    reveal_strlit("add");
    reveal_strlit("insert");
    reveal_strlit("update");
    assert(ascii_lower("updated"@) =~= "updated"@);
    assert(ascii_lower("added"@) =~= "added"@);
    assert(ascii_lower("deleted"@) =~= "deleted"@);
    assert("updated"@.len() == 7 && "added"@.len() == 5 && "deleted"@.len() == 7);
    assert("add"@.len() == 3 && "insert"@.len() == 6 && "update"@.len() == 6);
    assert("deleted"@[0] == 'd' && "updated"@[0] == 'u');
}

/// A result of an HTTP batch, once it is recorded, describes the same change as it does alone,
/// provided that it says what changed.
pub proof fn lemma_batches_keep_their_changes(
    request: RequestView,
    query_id: Seq<char>,
    now_ns: u64,
    result: JsonView,
    batch_index: int,
    result_index: int,
)
    requires
        says_what_changed(result),
    ensures
        changes_of(
            batch_invocation(request, query_id, now_ns, result, batch_index, result_index).value,
        ) == single(named_change_of(result)),
{
    let value = batch_invocation(
        request,
        query_id,
        now_ns,
        result,
        batch_index,
        result_index,
    ).value;
    lemma_recorded_request(value->Object_0, result_type(result), result);
    lemma_reported_types();
}

/// The body of a single HTTP request, once it is recorded, describes the same change as it does
/// alone, provided that it names its operation.
pub proof fn lemma_requests_keep_their_changes(
    request: RequestView,
    query_id: Seq<char>,
    correlation_header: Option<Seq<char>>,
    now_ns: u64,
    body: JsonView,
)
    requires
        operation_of(body) is Some,
    ensures
        changes_of(
            single_invocation(request, query_id, correlation_header, now_ns, body).value,
        ) == single(named_change_of(body)),
{
    let value = single_invocation(request, query_id, correlation_header, now_ns, body).value;
    let fields = value->Object_0;
    lemma_recorded_request(fields, fields[1].1->Text_0, body);
}

} // verus!
