//! Bodies of the robot's HTTP API responses and the parts of the handlers that
//! compute them.

use vstd::prelude::*;
use vstd::string::StringExecFns;

verus! {

/// Answer to a movement request.
#[derive(Debug, Clone, PartialEq, Eq)]
pub struct MoveResponse {
    pub success: bool,
    pub message: String,
}

/// Request to stop moving (no fields).
#[derive(Debug, Clone, Copy, PartialEq, Eq)]
pub struct StopRequest {}

/// Request to change the gait, by template name (`tri`, `wave`, `ripple`, `bi`, `quad`, `hop`).
#[derive(Debug, Clone, PartialEq, Eq)]
pub struct SetGaitRequest {
    pub gait_name: String,
}

/// Answer to a gait request.
#[derive(Debug, Clone, PartialEq, Eq)]
pub struct GaitResponse {
    pub success: bool,
    pub message: String,
    pub current_gait: String,
}

/// Answer to a body pose request.
#[derive(Debug, Clone, PartialEq, Eq)]
pub struct BodyPoseResponse {
    pub success: bool,
    pub message: String,
}

/// Answer to a health check.
#[derive(Debug, Clone, PartialEq, Eq)]
pub struct HealthResponse {
    pub status: String,
    pub version: String,
}

/// The answer to a stop request.
pub fn stop_hexapod(_request: &StopRequest) -> (r: MoveResponse)
    ensures
        r.success,
        r.message@ == "Hexapod stopped"@,
{
    MoveResponse { success: true, message: String::from_str("Hexapod stopped") }
}

/// The answer to a health check of a server of version `version`.
pub fn health_check(version: &str) -> (r: HealthResponse)
    ensures
        r.status@ == "healthy"@,
        r.version@ == version@,
{
    HealthResponse { status: String::from_str("healthy"), version: String::from_str(version) }
}

/// The answer to a query of the current gait, named `current_gait`.
pub fn get_gait(current_gait: &str) -> (r: GaitResponse)
    ensures
        r.success,
        r.message@ == "Current gait"@,
        r.current_gait@ == current_gait@,
{
    GaitResponse {
        success: true,
        message: String::from_str("Current gait"),
        current_gait: String::from_str(current_gait),
    }
}

/// Position of the gait template named `name` among `names`, if any (the first match).
pub open spec fn template_position(names: Seq<Seq<char>>, name: Seq<char>) -> Option<int>
    decreases names.len(),
{
    if names.len() == 0 {
        None
    } else if names.last() == name {
        match template_position(names.drop_last(), name) {
            Some(i) => Some(i),
            None => Some(names.len() - 1),
        }
    } else {
        template_position(names.drop_last(), name)
    }
}

/// Position of the first template in `names` whose name equals the requested one;
/// `None` (a bad request) when there is none.
pub fn find_template(names: &Vec<String>, request: &SetGaitRequest) -> (r: Option<usize>)
    ensures
        r matches Some(i) ==> template_position(names@.map_values(|s: String| s@), request.gait_name@)
            == Some(i as int),
        r is None ==> template_position(names@.map_values(|s: String| s@), request.gait_name@) is None,
{
    let ghost all = names@.map_values(|s: String| s@);
    let mut i: usize = 0;
    while i < names.len()
        invariant
            i <= names@.len(),
            all == names@.map_values(|s: String| s@),
            template_position(all.take(i as int), request.gait_name@) is None,
        decreases names@.len() - i,
    {
        proof {
            lemma_position_prefix(all, request.gait_name@, i as int);
        }
        if names[i] == request.gait_name {
            proof {
                lemma_position_first(all, request.gait_name@, i as int);
            }
            return Some(i);
        }
        assert(all.take(i + 1).drop_last() =~= all.take(i as int));
        i = i + 1;
    }
    assert(all.take(names@.len() as int) =~= all);
    None
}

proof fn lemma_position_prefix(names: Seq<Seq<char>>, name: Seq<char>, i: int)
    requires
        0 <= i < names.len(),
    ensures
        names.take(i + 1).drop_last() =~= names.take(i),
        names.take(i + 1).last() == names[i],
{
}

/// When the first `i` names differ from `name` and name `i` equals it, the
/// first match is at `i`.
proof fn lemma_position_first(names: Seq<Seq<char>>, name: Seq<char>, i: int)
    requires
        0 <= i < names.len(),
        template_position(names.take(i), name) is None,
        names[i] == name,
    ensures
        template_position(names, name) == Some(i),
    decreases names.len(),
{
    if i < names.len() - 1 {
        assert(names.drop_last().take(i) =~= names.take(i));
        lemma_position_first(names.drop_last(), name, i);
        if names.last() == name {
        }
    } else {
        assert(names.drop_last() =~= names.take(i));
    }
}

/// The answer to a gait change to the template named `name`.
pub fn set_gait(name: &str) -> (r: GaitResponse)
    ensures
        r.success,
        r.message@ == "Gait changed to "@ + name@,
        r.current_gait@ == name@,
{
    let mut message = String::from_str("Gait changed to ");
    message.append(name);
    GaitResponse { success: true, message, current_gait: String::from_str(name) }
}

} // verus!
