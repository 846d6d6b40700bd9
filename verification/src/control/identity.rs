//! Bringing the identity of the running agent in line with the configuration.
use crate::config::model::{AgentSection, AgentSectionView};
use crate::text::{text_eq, trim, trimmed};
use crate::text_laws::{
    has_solid_ends, holds_text, is_blank, law_trim_removes_white_space_only, lemma_holds_between,
};
use vstd::prelude::*;
use vstd::string::*;

verus! {

/// The identity in the state of the agent.
#[derive(Debug, PartialEq, Eq)]
pub struct RuntimeIdentity {
    pub agent_id: String,
    pub instance_id: String,
}

/// What an identity says.
#[verifier::ext_equal]
pub struct RuntimeIdentityView {
    pub agent_id: Seq<char>,
    pub instance_id: Seq<char>,
}

impl View for RuntimeIdentity {
    type V = RuntimeIdentityView;

    open spec fn view(&self) -> RuntimeIdentityView {
        RuntimeIdentityView { agent_id: self.agent_id@, instance_id: self.instance_id@ }
    }
}

/// The configuration names another agent than the one that is enrolled.
#[derive(Debug, PartialEq, Eq)]
pub struct IdentityConflict {
    pub configured: String,
    pub enrolled: String,
}

/// The sentence that tells the user of a conflict.
pub open spec fn conflict_text(configured: Seq<char>, enrolled: Seq<char>) -> Seq<char> {
    "config agent.agent_id ("@ + configured + ") conflicts with enrolled runtime identity "@
        + enrolled + "; remove agent.agent_id or clear the agent state to re-enroll"@
}

impl IdentityConflict {
    /// The sentence that tells the user of the conflict.
    pub fn message(&self) -> (out: String)
        ensures
            out@ == conflict_text(self.configured@, self.enrolled@),
    {
        let mut out = "config agent.agent_id (".to_string();
        out.append(self.configured.as_str());
        out.append(") conflicts with enrolled runtime identity ");
        out.append(self.enrolled.as_str());
        out.append("; remove agent.agent_id or clear the agent state to re-enroll");
        out
    }
}

/// A setting that is given: without surrounding white space it is not empty.
pub open spec fn given(value: Option<Seq<char>>) -> Option<Seq<char>> {
    match value {
        Some(text) => if trimmed(text).len() > 0 {
            Some(trimmed(text))
        } else {
            None
        },
        None => None,
    }
}

fn given_text(value: &Option<String>) -> (out: Option<String>)
    ensures
        crate::text::opt_text(out) == given(crate::text::opt_text(*value)),
{
    match value {
        Some(text) => {
            let kept = trim(text.as_str());
            if kept.as_str().is_empty() {
                None
            } else {
                Some(kept)
            }
        },
        None => None,
    }
}

/// The identity that a configuration asks for. Credentials belong to the enrolled agent,
/// so that identity is never bound to another id: such a configuration is refused.
pub open spec fn synced_identity(
    state: RuntimeIdentityView,
    agent: AgentSectionView,
    registered: bool,
) -> Result<RuntimeIdentityView, (Seq<char>, Seq<char>)> {
    match given(agent.agent_id) {
        Some(id) if registered && state.agent_id != id => Err((id, state.agent_id)),
        configured => Ok(
            RuntimeIdentityView {
                agent_id: match configured {
                    Some(id) => id,
                    None => state.agent_id,
                },
                instance_id: match given(agent.instance_name) {
                    Some(name) => name,
                    None => state.instance_id,
                },
            },
        ),
    }
}

/// Takes the identity that a configuration asks for. `registered` says whether the
/// identity in the state was given by a control plane.
pub fn sync_runtime_identity(
    state: &mut RuntimeIdentity,
    agent: &AgentSection,
    registered: bool,
) -> (out: Result<(), IdentityConflict>)
    ensures
        match out {
            Ok(_) => synced_identity(old(state)@, agent@, registered) == Ok::<
                _,
                (Seq<char>, Seq<char>),
            >(final(state)@),
            Err(conflict) => synced_identity(old(state)@, agent@, registered) == Err::<
                RuntimeIdentityView,
                _,
            >((conflict.configured@, conflict.enrolled@)) && final(state)@ == old(state)@,
        },
{
    if let Some(id) = given_text(&agent.agent_id) {
        if registered && !text_eq(state.agent_id.as_str(), id.as_str()) {
            return Err(
                IdentityConflict {
                    configured: id,
                    enrolled: state.agent_id.as_str().to_string(),
                },
            );
        }
        state.agent_id = id;
    }
    if let Some(name) = given_text(&agent.instance_name) {
        state.instance_id = name;
    }
    Ok(())
}

/// An identity that was given by a control plane keeps its agent id, whatever the
/// configuration says.
pub proof fn law_enrolled_identity_is_never_rebound(
    state: RuntimeIdentityView,
    agent: AgentSectionView,
)
    ensures
        synced_identity(state, agent, true) matches Ok(next) ==> next.agent_id == state.agent_id,
        given(agent.agent_id) matches Some(id) ==> (synced_identity(state, agent, true) is Err
            <==> id != state.agent_id),
{
}

/// Taking the same identity again changes nothing.
pub proof fn law_sync_is_idempotent(
    state: RuntimeIdentityView,
    agent: AgentSectionView,
    registered: bool,
)
    ensures
        synced_identity(state, agent, registered) matches Ok(next) ==> synced_identity(
            next,
            agent,
            registered,
        ) == Ok::<_, (Seq<char>, Seq<char>)>(next),
{
}

/// The identity that a configuration names is taken, without the white space around it: the
/// id of the agent where no control plane has given another one, and the name of the
/// instance in any case. What it does not name, or leaves blank, stays as it is.
pub proof fn law_configured_identities_are_taken(
    state: RuntimeIdentityView,
    agent: AgentSectionView,
    registered: bool,
    front: Seq<char>,
    kept: Seq<char>,
    back: Seq<char>,
)
    requires
        is_blank(front),
        is_blank(back),
        has_solid_ends(kept),
    ensures
        agent.agent_id is None ==> (synced_identity(state, agent, registered) matches Ok(next)
            && next.agent_id == state.agent_id),
        agent.agent_id == Some(front + kept + back) && kept.len() == 0 ==> (synced_identity(
            state,
            agent,
            registered,
        ) matches Ok(next) && next.agent_id == state.agent_id),
        agent.agent_id == Some(front + kept + back) && kept.len() > 0 && (!registered
            || state.agent_id == kept) ==> (synced_identity(state, agent, registered) matches Ok(
            next,
        ) && next.agent_id == kept),
        agent.agent_id == Some(front + kept + back) && kept.len() > 0 && registered
            && state.agent_id != kept ==> synced_identity(state, agent, registered) == Err::<
            RuntimeIdentityView,
            _,
        >((kept, state.agent_id)),
        agent.instance_name is None ==> (synced_identity(state, agent, registered) matches Ok(next)
            ==> next.instance_id == state.instance_id),
        agent.instance_name == Some(front + kept + back) ==> (synced_identity(
            state,
            agent,
            registered,
        ) matches Ok(next) ==> next.instance_id == (if kept.len() > 0 {
            kept
        } else {
            state.instance_id
        })),
{
    law_trim_removes_white_space_only(front, kept, back);
}

/// The sentence on a conflict names both identities, the configured one first.
pub proof fn law_conflicts_name_both_identities(configured: Seq<char>, enrolled: Seq<char>)
    ensures
        holds_text(
            conflict_text(configured, enrolled),
            "("@ + configured + ") conflicts with enrolled runtime identity "@ + enrolled + ";"@,
        ),
{
    reveal_strlit("config agent.agent_id (");
    reveal_strlit("config agent.agent_id ");
    reveal_strlit("(");
    reveal_strlit("; remove agent.agent_id or clear the agent state to re-enroll");
    reveal_strlit(";");
    reveal_strlit(" remove agent.agent_id or clear the agent state to re-enroll");
    let middle = ") conflicts with enrolled runtime identity "@;
    let part = "("@ + configured + middle + enrolled + ";"@;
    let front = "config agent.agent_id "@;
    let back = " remove agent.agent_id or clear the agent state to re-enroll"@;
    assert("config agent.agent_id ("@ =~= front + "("@);
    assert("; remove agent.agent_id or clear the agent state to re-enroll"@ =~= ";"@ + back);
    assert(conflict_text(configured, enrolled) =~= front + part + back);
    lemma_holds_between(front, part, back);
}

} // verus!
