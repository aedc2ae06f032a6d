//! Selection resolution and the launch decision: mapping the picker's
//! chosen line back to a candidate, and deciding which multiplexer commands
//! run for it.

use vstd::prelude::*;

verus! {

/// One multiplexer invocation the launcher can make for the chosen project.
#[derive(Clone, Copy, Debug, PartialEq, Eq, Structural)]
pub enum MuxCommand {
    /// Create a detached session named after the project, rooted at its path.
    Create,
    /// Switch the already-attached terminal's client to the session.
    Switch,
    /// Attach the terminal to the session.
    Attach,
}

/// The index of the first label equal to the selection, or `None` when the
/// selection matches no label — the case reported to the user as a failed
/// lookup, with no multiplexer command run.
pub fn resolve_selection(options: &Vec<String>, selection: &String) -> (r: Option<usize>)
    ensures
        match r {
            Some(i) => i < options@.len() && options@[i as int]@ == selection@ && forall|j: int|
                0 <= j < i ==> options@[j]@ != selection@,
            None => forall|j: int| 0 <= j < options@.len() ==> options@[j]@ != selection@,
        },
{
    let mut i: usize = 0;
    while i < options.len()
        invariant
            i <= options@.len(),
            forall|j: int| 0 <= j < i ==> options@[j]@ != selection@,
        decreases options@.len() - i,
    {
        if options[i].eq(selection) {
            return Some(i);
        }
        i += 1;
    }
    None
}

/// The commands run for the chosen project, in order: a session that is not
/// yet live is first created, and the terminal is then switched to it when
/// the invocation already sits inside a session, attached to it otherwise.
pub open spec fn launch_commands(session_live: bool, inside_session: bool) -> Seq<MuxCommand> {
    let join = if inside_session {
        seq![MuxCommand::Switch]
    } else {
        seq![MuxCommand::Attach]
    };
    if session_live {
        join
    } else {
        seq![MuxCommand::Create] + join
    }
}

/// Decides the launcher's multiplexer commands from the two session facts:
/// whether a live session of the chosen name exists, and whether the
/// invoking terminal is already inside a session.
pub fn plan_launch(session_live: bool, inside_session: bool) -> (plan: Vec<MuxCommand>)
    ensures
        plan@ == launch_commands(session_live, inside_session),
{
    let mut plan: Vec<MuxCommand> = Vec::new();
    if !session_live {
        plan.push(MuxCommand::Create);
    }
    if inside_session {
        plan.push(MuxCommand::Switch);
    } else {
        plan.push(MuxCommand::Attach);
    }
    proof {
        assert(plan@ =~= launch_commands(session_live, inside_session));
    }
    plan
}

/// The launch decision table, over every combination of the two facts:
/// `Create` runs exactly for a session that is not live, and it runs first;
/// exactly one of `Switch` and `Attach` runs, `Switch` exactly when the
/// invocation is already inside a session; nothing else ever runs.
pub proof fn lemma_launch_decision_table(session_live: bool, inside_session: bool)
    ensures
        launch_commands(session_live, inside_session).contains(MuxCommand::Create)
            <==> !session_live,
        launch_commands(session_live, inside_session).contains(MuxCommand::Switch)
            <==> inside_session,
        launch_commands(session_live, inside_session).contains(MuxCommand::Attach)
            <==> !inside_session,
        !session_live ==> launch_commands(session_live, inside_session)[0] == MuxCommand::Create,
        launch_commands(session_live, inside_session).len() == if session_live {
            1int
        } else {
            2int
        },
{
    let cmds = launch_commands(session_live, inside_session);
    if !session_live {
        assert(cmds[0] == MuxCommand::Create);
    }
    if inside_session {
        assert(cmds[cmds.len() - 1] == MuxCommand::Switch);
    } else {
        assert(cmds[cmds.len() - 1] == MuxCommand::Attach);
    }
}

} // verus!
