use vstd::prelude::*;
use crate::text::str_eq;

verus! {

broadcast use vstd::string::group_string_axioms;

/// What a request's method asks the server to do.
#[derive(Debug)]
pub enum Dispatch {
    Discover,
    ToolsList,
    ToolsCall,
    ResourcesList,
    ResourcesRead,
    AgentSessionStart,
    AgentPreStop,
    AgentSubagentStop,
    ActivityConfigure,
    ActivityStatus,
    Unknown(String),
}

/// The dispatch target of each known method name.
pub open spec fn dispatch_of(method: Seq<char>) -> Option<Dispatch> {
    if method == "server/discover"@ { Some(Dispatch::Discover) }
    else if method == "tools/list"@ { Some(Dispatch::ToolsList) }
    else if method == "tools/call"@ { Some(Dispatch::ToolsCall) }
    else if method == "resources/list"@ { Some(Dispatch::ResourcesList) }
    else if method == "resources/read"@ { Some(Dispatch::ResourcesRead) }
    else if method == "agent/session_start"@ { Some(Dispatch::AgentSessionStart) }
    else if method == "agent/pre_stop"@ { Some(Dispatch::AgentPreStop) }
    else if method == "agent/subagent_stop"@ { Some(Dispatch::AgentSubagentStop) }
    else if method == "server/activity_configure"@ { Some(Dispatch::ActivityConfigure) }
    else if method == "server/activity_status"@ { Some(Dispatch::ActivityStatus) }
    else { None }
}

/// Routes a request by its method name; an unknown method is carried in `Unknown`.
pub fn dispatch(method: &str) -> (d: Dispatch)
    ensures
        match dispatch_of(method@) {
            Some(known) => d == known,
            None => d matches Dispatch::Unknown(m) && m@ == method@,
        },
{
    if str_eq(method, "server/discover") { Dispatch::Discover }
    else if str_eq(method, "tools/list") { Dispatch::ToolsList }
    else if str_eq(method, "tools/call") { Dispatch::ToolsCall }
    else if str_eq(method, "resources/list") { Dispatch::ResourcesList }
    else if str_eq(method, "resources/read") { Dispatch::ResourcesRead }
    else if str_eq(method, "agent/session_start") { Dispatch::AgentSessionStart }
    else if str_eq(method, "agent/pre_stop") { Dispatch::AgentPreStop }
    else if str_eq(method, "agent/subagent_stop") { Dispatch::AgentSubagentStop }
    else if str_eq(method, "server/activity_configure") { Dispatch::ActivityConfigure }
    else if str_eq(method, "server/activity_status") { Dispatch::ActivityStatus }
    else { Dispatch::Unknown(method.to_owned()) }
}

} // verus!
