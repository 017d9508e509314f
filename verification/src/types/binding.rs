//! Binding rows: how a consumer's `requires` were resolved, and the
//! (handle, capability) view of one.

use vstd::prelude::*;
use crate::types::ids::PluginId;

verus! {

/// One row of a consumer's binding table: the local handle, the plugin
/// that provides it, the capability name in the space (empty when the
/// row is bound to nothing) and the contract it was matched on.
#[derive(Debug)]
pub struct ResolvedBinding {
    pub handle: String,
    pub provider: PluginId,
    pub capability: String,
    pub contract: String,
}

impl Clone for ResolvedBinding {
    fn clone(&self) -> (r: ResolvedBinding)
        ensures
            r == *self,
    {
        ResolvedBinding {
            handle: self.handle.clone(),
            provider: self.provider.clone(),
            capability: self.capability.clone(),
            contract: self.contract.clone(),
        }
    }
}

/// One reachable entry: the consumer's handle and the capability name
/// it resolves to.
#[derive(Debug, Clone, PartialEq, Eq)]
pub struct Reachable {
    pub handle: String,
    pub capability: String,
}

impl Reachable {
    /// The handle and capability of a binding row.
    pub fn from_binding(b: &ResolvedBinding) -> (r: Reachable)
        ensures
            r.handle@ == b.handle@,
            r.capability@ == b.capability@,
    {
        Reachable { handle: b.handle.clone(), capability: b.capability.clone() }
    }

    pub fn new(handle: &str, capability: &str) -> (r: Reachable)
        ensures
            r.handle@ == handle@,
            r.capability@ == capability@,
    {
        Reachable { handle: String::from_str(handle), capability: String::from_str(capability) }
    }
}

/// One entry of a capability's action vocabulary: the action verb and
/// the operation it needs.
#[derive(Debug)]
pub struct CapabilityAction {
    pub name: String,
    pub operation: String,
}

/// The action vocabulary of a capability: which operation each action
/// needs. Empty means no enumerable action surface.
#[derive(Debug)]
pub struct AuthorityContract {
    pub actions: Vec<CapabilityAction>,
}

impl Default for AuthorityContract {
    fn default() -> (r: AuthorityContract)
        ensures
            r.actions@.len() == 0,
    {
        AuthorityContract { actions: Vec::new() }
    }
}

/// The operation `actions` publishes for `action`: that of the first
/// entry named `action`, if any.
pub open spec fn operation_of(actions: Seq<CapabilityAction>, action: Seq<char>) -> Option<Seq<char>>
    decreases actions.len(),
{
    if actions.len() == 0 {
        None
    } else if actions[0].name@ == action {
        Some(actions[0].operation@)
    } else {
        operation_of(actions.drop_first(), action)
    }
}

impl AuthorityContract {
    pub fn empty() -> (r: AuthorityContract)
        ensures
            r.actions@.len() == 0,
    {
        AuthorityContract::default()
    }

    /// Append an action to the vocabulary.
    pub fn with_action(self, name: &str, operation: &str) -> (r: AuthorityContract)
        ensures
            r.actions@.len() == self.actions@.len() + 1,
            r.actions@.take(self.actions@.len() as int) == self.actions@,
            r.actions@.last().name@ == name@,
            r.actions@.last().operation@ == operation@,
    {
        let mut c = self;
        let ghost before = c.actions@;
        c.actions.push(CapabilityAction { name: String::from_str(name), operation: String::from_str(operation) });
        proof {
            assert(c.actions@.take(before.len() as int) =~= before);
        }
        c
    }

    /// The operation published for `action`, or `None` when the action
    /// is not in the vocabulary.
    pub fn operation_for(&self, action: &str) -> (r: Option<&str>)
        ensures
            match r {
                Some(op) => operation_of(self.actions@, action@) == Some(op@),
                None => operation_of(self.actions@, action@) is None,
            },
    {
        let mut i: usize = 0;
        proof {
            assert(self.actions@.skip(0) =~= self.actions@);
        }
        while i < self.actions.len()
            invariant
                i <= self.actions@.len(),
                operation_of(self.actions@, action@) == operation_of(self.actions@.skip(i as int), action@),
            decreases self.actions@.len() - i,
        {
            proof {
                assert(self.actions@.skip(i as int)[0] == self.actions@[i as int]);
                assert(self.actions@.skip(i as int).drop_first() =~= self.actions@.skip(i + 1));
            }
            if crate::text::str_eq(self.actions[i].name.as_str(), action) {
                return Some(self.actions[i].operation.as_str());
            }
            i = i + 1;
        }
        None
    }
}

} // verus!
