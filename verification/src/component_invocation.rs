//! What a format component is handed when it runs, and what a plan records of it.

use vstd::prelude::*;

use crate::deployment::StaticProfile;
use crate::rich_planner::ComponentUse;
use crate::seqs;
use crate::transform::Implementation;

verus! {

/// A component of a verified pack.
#[derive(Debug)]
pub struct VerifiedComponent {
    /// The node of the graph whose pack holds the component.
    pub node_id: String,
    pub pack_digest: String,
    /// Where the component lies in its pack.
    pub path: String,
    pub name: String,
    pub digest: String,
    pub interface: String,
    pub execution_profile: String,
    /// The bytes that have the digest.
    pub bytes: Vec<u8>,
}

/// What identifies a transform that a component runs; `T` is the type of text.
#[derive(Debug)]
pub struct ComponentIdentity<T = String> {
    /// The name of the transform.
    pub name: T,
    pub component_digest: T,
    pub interface: T,
    pub execution_profile: T,
}

impl View for ComponentIdentity<String> {
    type V = ComponentIdentity<Seq<char>>;

    open spec fn view(&self) -> ComponentIdentity<Seq<char>> {
        ComponentIdentity {
            name: self.name@,
            component_digest: self.component_digest@,
            interface: self.interface@,
            execution_profile: self.execution_profile@,
        }
    }
}

/// Everything that running a component is handed.
#[derive(Debug)]
pub struct ComponentInvocation<'a> {
    /// Digests of the components that may run.
    pub authorization: &'a Vec<String>,
    pub identity: ComponentIdentity,
    pub component_bytes: &'a Vec<u8>,
    /// The encoded request.
    pub request: &'a Vec<u8>,
}

/// What an invocation holds.
pub struct InvocationModel {
    pub authorization: Seq<Seq<char>>,
    pub identity: ComponentIdentity<Seq<char>>,
    pub component_bytes: Seq<u8>,
    pub request: Seq<u8>,
}

impl<'a> View for ComponentInvocation<'a> {
    type V = InvocationModel;

    open spec fn view(&self) -> InvocationModel {
        InvocationModel {
            authorization: seqs::views(self.authorization@),
            identity: self.identity@,
            component_bytes: self.component_bytes@,
            request: self.request@,
        }
    }
}

/// Builds the invocation of a component for a transform of a profile: it carries the
/// authorization of the profile, the verified bytes of the component, and the request.
pub fn component_invocation<'a>(
    profile: &'a StaticProfile,
    transform_name: &str,
    component: &'a VerifiedComponent,
    request: &'a Vec<u8>,
) -> (invocation: ComponentInvocation<'a>)
    ensures
        invocation@ == (InvocationModel {
            authorization: seqs::views(profile.component_authorization@),
            identity: ComponentIdentity {
                name: transform_name@,
                component_digest: component.digest@,
                interface: component.interface@,
                execution_profile: component.execution_profile@,
            },
            component_bytes: component.bytes@,
            request: request@,
        }),
{
    ComponentInvocation {
        authorization: &profile.component_authorization,
        identity: ComponentIdentity {
            name: transform_name.to_owned(),
            component_digest: component.digest.clone(),
            interface: component.interface.clone(),
            execution_profile: component.execution_profile.clone(),
        },
        component_bytes: &component.bytes,
        request,
    }
}

/// Tells what a plan records of a transform that a component ran.
pub fn component_implementation(component: &VerifiedComponent) -> (implementation: Implementation)
    ensures
        implementation@ == (Implementation::Component {
            node_id: component.node_id@,
            pack_digest: component.pack_digest@,
            path: component.path@,
            component_digest: component.digest@,
            interface: component.interface@,
            execution_profile: component.execution_profile@,
        }),
{
    Implementation::Component {
        node_id: component.node_id.clone(),
        pack_digest: component.pack_digest.clone(),
        path: component.path.clone(),
        component_digest: component.digest.clone(),
        interface: component.interface.clone(),
        execution_profile: component.execution_profile.clone(),
    }
}

/// Tells which component ran, as the input of a plan names it.
pub fn component_use(component: &VerifiedComponent) -> (used: ComponentUse)
    ensures
        used@ == (ComponentUse {
            node_id: component.node_id@,
            name: component.name@,
            digest: component.digest@,
        }),
{
    ComponentUse {
        node_id: component.node_id.clone(),
        name: component.name.clone(),
        digest: component.digest.clone(),
    }
}

} // verus!
