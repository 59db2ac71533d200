use crate::text::{decimal, push_decimal, push_str, string_of};
use vstd::prelude::*;

verus! {

/// Identifier of an actor: the node it lives on (0 for the local node) and
/// its number on that node.
#[derive(Clone, Copy, Debug, PartialEq, Eq, Hash, Structural)]
pub struct Pid {
    pub node: u32,
    pub id: u64,
}

/// The text form of a process identifier: `<node.id.0>`.
pub open spec fn pid_text(p: Pid) -> Seq<char> {
    "<"@ + decimal(p.node as nat) + "."@ + decimal(p.id as nat) + ".0>"@
}

impl Pid {
    /// A process identifier on the given node.
    pub fn with_node(node: u32, id: u64) -> (r: Pid)
        ensures
            r.node == node,
            r.id == id,
    {
        Pid { node, id }
    }

    /// The node number (0 for a local process).
    pub fn node(&self) -> (r: u32)
        ensures
            r == self.node,
    {
        self.node
    }

    /// The process number on its node.
    pub fn id(&self) -> (r: u64)
        ensures
            r == self.id,
    {
        self.id
    }

    /// True when the process lives on the local node.
    pub fn is_local(&self) -> (r: bool)
        ensures
            r == (self.node == 0),
    {
        self.node == 0
    }

    /// The text form `<node.id.0>`.
    pub fn to_string(&self) -> (r: String)
        ensures
            r@ == pid_text(*self),
    {
        let mut s = string_of("<");
        push_decimal(&mut s, self.node as u64);
        push_str(&mut s, ".");
        push_decimal(&mut s, self.id);
        push_str(&mut s, ".0>");
        s
    }
}

} // verus!
