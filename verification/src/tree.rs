//! A folder tree as it was found on disk.
use vstd::prelude::*;

use crate::strs::{eq_fold, same_fold};

verus! {

#[derive(Debug, Clone, Copy, PartialEq, Eq, Structural)]
pub enum Kind {
    File,
    Dir,
    /// Neither, or gone since the folder was read.
    Other,
}

/// What a folder holds under one name.
#[derive(Debug)]
pub struct Node {
    /// The name; empty where it is no text.
    pub name: String,
    pub kind: Kind,
    /// Bytes of a file; 0 where that could not be read.
    pub len: u64,
    /// 64 or 32 for an executable.
    pub bits: Option<u8>,
    /// What a folder holds, in the order in which it was read; empty where it
    /// could not be.
    pub children: Vec<Node>,
}

/// The node is of that kind and, case aside, of that name.
pub open spec fn is_node(n: Node, kind: Kind, name: Seq<char>) -> bool {
    n.kind == kind && same_fold(n.name@, name)
}

/// The folder holds a file of that name.
pub open spec fn has_file(nodes: Seq<Node>, name: Seq<char>) -> bool {
    exists|i: int| 0 <= i < nodes.len() && is_node(#[trigger] nodes[i], Kind::File, name)
}

/// The first folder of that name from `i` on: what it holds.
pub open spec fn folder_from(nodes: Seq<Node>, name: Seq<char>, i: int) -> Option<Seq<Node>>
    decreases nodes.len() - i,
{
    if i < 0 || i >= nodes.len() {
        None
    } else if is_node(nodes[i], Kind::Dir, name) {
        Some(nodes[i].children@)
    } else {
        folder_from(nodes, name, i + 1)
    }
}

pub open spec fn folder(nodes: Seq<Node>, name: Seq<char>) -> Option<Seq<Node>> {
    folder_from(nodes, name, 0)
}

/// The folder holds a file of that name in a folder of that name.
pub open spec fn has_file_in(nodes: Seq<Node>, dir: Seq<char>, name: Seq<char>) -> bool {
    match folder(nodes, dir) {
        Some(v) => has_file(v, name),
        None => false,
    }
}

pub fn holds_file(nodes: &[Node], name: &str) -> (r: bool)
    ensures
        r == has_file(nodes@, name@),
{
    let mut i: usize = 0;
    while i < nodes.len()
        invariant
            i <= nodes@.len(),
            forall|j: int| 0 <= j < i ==> !is_node(#[trigger] nodes@[j], Kind::File, name@),
        decreases nodes@.len() - i,
    {
        if nodes[i].kind == Kind::File && eq_fold(nodes[i].name.as_str(), name) {
            assert(is_node(nodes@[i as int], Kind::File, name@));
            return true;
        }
        i += 1;
    }
    false
}

/// What the folder of that name holds.
pub fn find_folder<'a>(nodes: &'a [Node], name: &str) -> (r: Option<&'a [Node]>)
    ensures
        match r {
            Some(v) => folder(nodes@, name@) == Some(v@),
            None => folder(nodes@, name@) is None,
        },
{
    let mut i: usize = 0;
    while i < nodes.len()
        invariant
            i <= nodes@.len(),
            folder(nodes@, name@) == folder_from(nodes@, name@, i as int),
        decreases nodes@.len() - i,
    {
        if nodes[i].kind == Kind::Dir && eq_fold(nodes[i].name.as_str(), name) {
            return Some(nodes[i].children.as_slice());
        }
        i += 1;
    }
    None
}

pub fn holds_file_in(nodes: &[Node], dir: &str, name: &str) -> (r: bool)
    ensures
        r == has_file_in(nodes@, dir@, name@),
{
    match find_folder(nodes, dir) {
        Some(v) => holds_file(v, name),
        None => false,
    }
}

} // verus!
