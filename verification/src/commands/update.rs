//! Updates of one object by a few fields.
use vstd::prelude::*;
use vstd::string::*;

use crate::api::{Request, RequestView};
use crate::json;
use crate::json::{Json, JsonView};

verus! {

/// What an update command does.
#[derive(Debug)]
pub enum UpdatePlan {
    /// No field was given.
    Nothing,
    /// The update is only shown.
    Preview(Json),
    Send(Request),
}

#[verifier::ext_equal]
pub enum UpdatePlanView {
    Nothing,
    Preview(JsonView),
    Send(RequestView),
}

impl View for UpdatePlan {
    type V = UpdatePlanView;

    open spec fn view(&self) -> UpdatePlanView {
        match self {
            UpdatePlan::Nothing => UpdatePlanView::Nothing,
            UpdatePlan::Preview(payload) => UpdatePlanView::Preview(payload@),
            UpdatePlan::Send(request) => UpdatePlanView::Send(request@),
        }
    }
}

pub open spec fn id_and_input(id: Seq<char>, input: JsonView) -> JsonView {
    JsonView::object().with("id"@, JsonView::Text(id)).with("input"@, input)
}

pub open spec fn planned_update(
    mutation: Seq<char>,
    id: Seq<char>,
    input: JsonView,
    dry_run: bool,
) -> UpdatePlanView {
    if input.is_empty_object() {
        UpdatePlanView::Nothing
    } else if dry_run {
        UpdatePlanView::Preview(
            JsonView::object().with("dry_run"@, JsonView::Bool(true)).with(
                "would_update"@,
                id_and_input(id, input),
            ),
        )
    } else {
        UpdatePlanView::Send(RequestView::with(mutation, id_and_input(id, input)))
    }
}

/// Decides on an update: nothing is sent where no field was given, or in a dry run.
pub fn plan_update(mutation: &'static str, id: &str, input: Json, dry_run: bool) -> (r: UpdatePlan)
    ensures
        r@ == planned_update(mutation@, id@, input@, dry_run),
{
    if input.is_empty_object() {
        return UpdatePlan::Nothing;
    }
    let variables = Json::object().with("id", Json::text(id)).with("input", input);
    if dry_run {
        UpdatePlan::Preview(
            Json::object().with("dry_run", Json::Bool(true)).with("would_update", variables),
        )
    } else {
        UpdatePlan::Send(Request::with(mutation, variables))
    }
}

/// A dry run never sends anything.
pub proof fn dry_run_sends_nothing(mutation: Seq<char>, id: Seq<char>, input: JsonView)
    ensures
        !(planned_update(mutation, id, input, true) is Send),
{
}

/// An update that sets something is sent for the object with all that it sets, and a dry run
/// shows exactly that instead; one that sets nothing does nothing.
pub proof fn update_carries_the_id_and_the_input(mutation: Seq<char>, id: Seq<char>, input: JsonView)
    ensures
        ({
            let sent = planned_update(mutation, id, input, false);
            let shown = planned_update(mutation, id, input, true);
            &&& input.is_empty_object() ==> sent is Nothing && shown is Nothing
            &&& !input.is_empty_object() ==> {
                &&& sent is Send
                &&& sent->Send_0.query == mutation
                &&& sent->Send_0.variables is Some
                &&& sent->Send_0.variables->0.get("id"@) == Some(JsonView::Text(id))
                &&& sent->Send_0.variables->0.get("input"@) == Some(input)
                &&& shown is Preview
                &&& shown->Preview_0.get("dry_run"@) == Some(JsonView::Bool(true))
                &&& shown->Preview_0.get("would_update"@) == sent->Send_0.variables
            }
        }),
{
    broadcast use json::group_fields;

    reveal_strlit("id");
    reveal_strlit("input");
    reveal_strlit("dry_run");
    reveal_strlit("would_update");
    assert("id"@.len() == 2 && "input"@.len() == 5 && "dry_run"@.len() == 7 && "would_update"@.len()
        == 12);
}

} // verus!
