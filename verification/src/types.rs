//! Identifiers.

use crate::collections::MapKey;
use vstd::prelude::*;

verus! {

/// Substream identifier.
#[derive(Clone, Copy, Debug, PartialEq, Eq, Structural, Hash)]
pub struct SubstreamId(pub usize);

/// Request identifier.
#[derive(Clone, Copy, Debug, PartialEq, Eq, Structural, Hash)]
pub struct RequestId(pub usize);

/// Connection identifier.
#[derive(Clone, Copy, Debug, PartialEq, Eq, Structural, Hash)]
pub struct ConnectionId(pub usize);

impl View for SubstreamId {
    type V = SubstreamId;

    open spec fn view(&self) -> SubstreamId {
        *self
    }
}

impl View for RequestId {
    type V = RequestId;

    open spec fn view(&self) -> RequestId {
        *self
    }
}

impl View for ConnectionId {
    type V = ConnectionId;

    open spec fn view(&self) -> ConnectionId {
        *self
    }
}

impl MapKey for SubstreamId {
    fn same(&self, other: &Self) -> (r: bool) {
        self.0 == other.0
    }
}

impl MapKey for RequestId {
    fn same(&self, other: &Self) -> (r: bool) {
        self.0 == other.0
    }
}

impl MapKey for ConnectionId {
    fn same(&self, other: &Self) -> (r: bool) {
        self.0 == other.0
    }
}

/// Whether both byte strings are the same.
pub fn same_bytes(a: &Vec<u8>, b: &Vec<u8>) -> (r: bool)
    ensures
        r == (a@ == b@),
{
    if a.len() != b.len() {
        return false;
    }
    let mut i: usize = 0;
    while i < a.len()
        invariant
            i <= a.len(),
            a.len() == b.len(),
            forall|j: int| 0 <= j < i ==> a@[j] == b@[j],
        decreases a.len() - i,
    {
        if a[i] != b[i] {
            return false;
        }
        i += 1;
    }
    assert(a@ =~= b@);
    true
}

/// A copy of a byte string.
pub fn copy_bytes(a: &Vec<u8>) -> (r: Vec<u8>)
    ensures
        r@ == a@,
{
    let mut r: Vec<u8> = Vec::new();
    let mut i: usize = 0;
    while i < a.len()
        invariant
            i <= a.len(),
            r@ == a@.take(i as int),
        decreases a.len() - i,
    {
        r.push(a[i]);
        i += 1;
        assert(a@.take(i as int) =~= a@.take(i - 1).push(a@[i - 1]));
    }
    assert(a@.take(i as int) =~= a@);
    r
}

/// Protocol name.
#[derive(Debug, PartialEq, Eq)]
pub struct ProtocolName {
    name: String,
}

impl View for ProtocolName {
    type V = Seq<char>;

    closed spec fn view(&self) -> Seq<char> {
        self.name@
    }
}

impl ProtocolName {
    /// The protocol called `name`.
    pub fn from_name(name: String) -> (r: Self)
        ensures
            r@ == name@,
    {
        ProtocolName { name }
    }

    /// The name.
    pub fn as_str(&self) -> (r: &str)
        ensures
            r@ == self@,
    {
        self.name.as_str()
    }
}

impl Clone for ProtocolName {
    fn clone(&self) -> (r: Self)
        ensures
            r@ == self@,
    {
        ProtocolName { name: self.name.clone() }
    }
}

impl MapKey for ProtocolName {
    fn same(&self, other: &Self) -> (r: bool) {
        self.name == other.name
    }
}

/// A copy of an optional protocol name.
pub fn copy_fallback(name: &Option<ProtocolName>) -> (r: Option<ProtocolName>)
    ensures
        fallback_view(r) == fallback_view(*name),
{
    match name {
        Some(name) => Some(name.clone()),
        None => None,
    }
}

/// An optional protocol name, by its view.
pub open spec fn fallback_view(name: Option<ProtocolName>) -> Option<Seq<char>> {
    match name {
        Some(name) => Some(name@),
        None => None,
    }
}

} // verus!
