//! Display adapters and what the model costs on them.
use vstd::prelude::*;

use crate::chars::{lower, lower_string};
use crate::strs::{contains, occurs};

verus! {

/// A display adapter, by the name that Windows gives it.
#[derive(Debug, Clone)]
pub struct Gpu {
    pub name: String,
}

/// What a card can do with the model.
#[derive(Debug, Clone, Copy, PartialEq, Eq, Structural)]
pub enum Tier {
    Rtx50,
    Rtx40,
    Rtx20To30,
    /// A virtual or remote adapter, or a card that the name does not tell.
    Unknown,
    /// NVIDIA, but without tensor cores (GTX, GT, MX).
    NoTensorCores,
    /// NGX does not exist there.
    NotNvidia,
}

impl Tier {
    pub open spec fn runs(self) -> bool {
        self != Tier::NoTensorCores && self != Tier::NotNvidia
    }

    pub open spec fn says(self) -> Seq<char> {
        match self {
            Tier::Rtx50 => "RTX 50, full speed"@,
            Tier::Rtx40 => "RTX 40, moderate cost"@,
            Tier::Rtx20To30 => "RTX 20/30, heavy cost"@,
            Tier::Unknown => "unknown card"@,
            Tier::NoTensorCores => "no tensor cores"@,
            Tier::NotNvidia => "not NVIDIA"@,
        }
    }

    /// How much there is to be said for a card of this kind.
    pub open spec fn rank(self) -> int {
        match self {
            Tier::Rtx50 => 5,
            Tier::Rtx40 => 4,
            Tier::Rtx20To30 => 3,
            Tier::Unknown => 2,
            Tier::NoTensorCores => 1,
            Tier::NotNvidia => 0,
        }
    }

    /// Only NVIDIA cards with tensor cores run the model; what is unknown is
    /// allowed.
    pub fn can_run(self) -> (r: bool)
        ensures
            r == self.runs(),
    {
        self != Tier::NoTensorCores && self != Tier::NotNvidia
    }

    pub fn label(self) -> (r: &'static str)
        ensures
            r@ == self.says(),
    {
        match self {
            Tier::Rtx50 => "RTX 50, full speed",
            Tier::Rtx40 => "RTX 40, moderate cost",
            Tier::Rtx20To30 => "RTX 20/30, heavy cost",
            Tier::Unknown => "unknown card",
            Tier::NoTensorCores => "no tensor cores",
            Tier::NotNvidia => "not NVIDIA",
        }
    }

    fn order(self) -> (r: u8)
        ensures
            r == self.rank(),
    {
        match self {
            Tier::Rtx50 => 5,
            Tier::Rtx40 => 4,
            Tier::Rtx20To30 => 3,
            Tier::Unknown => 2,
            Tier::NoTensorCores => 1,
            Tier::NotNvidia => 0,
        }
    }
}

/// An adapter without a graphics card behind it: a virtual monitor, a remote
/// session, a virtual machine.
pub open spec fn is_virtual(name: Seq<char>) -> bool {
    let n = lower(name);
    ||| occurs(n, "virtual"@)
    ||| occurs(n, "idd"@)
    ||| occurs(n, "remote"@)
    ||| occurs(n, "hyper-v"@)
    ||| occurs(n, "vmware"@)
    ||| occurs(n, "basic display"@)
    ||| occurs(n, "basic render"@)
}

pub open spec fn tier_of(name: Seq<char>) -> Tier {
    let n = lower(name);
    if is_virtual(name) {
        Tier::Unknown
    } else if !occurs(n, "nvidia"@) {
        Tier::NotNvidia
    } else if occurs(n, "rtx 50"@) {
        Tier::Rtx50
    } else if occurs(n, "rtx 40"@) {
        Tier::Rtx40
    } else if occurs(n, "rtx 30"@) || occurs(n, "rtx 20"@) {
        Tier::Rtx20To30
    } else if occurs(n, "gtx"@) || occurs(n, "geforce gt "@) || occurs(n, "geforce mx"@) {
        Tier::NoTensorCores
    } else {
        Tier::Unknown
    }
}

pub fn is_virtual_adapter(name: &str) -> (r: bool)
    ensures
        r == is_virtual(name@),
{
    let n = lower_string(name);
    let s = n.as_str();
    contains(s, "virtual") || contains(s, "idd") || contains(s, "remote") || contains(s, "hyper-v")
        || contains(s, "vmware") || contains(s, "basic display") || contains(s, "basic render")
}

pub fn classify(name: &str) -> (r: Tier)
    ensures
        r == tier_of(name@),
{
    let n = lower_string(name);
    let s = n.as_str();
    if is_virtual_adapter(name) {
        Tier::Unknown
    } else if !contains(s, "nvidia") {
        Tier::NotNvidia
    } else if contains(s, "rtx 50") {
        Tier::Rtx50
    } else if contains(s, "rtx 40") {
        Tier::Rtx40
    } else if contains(s, "rtx 30") || contains(s, "rtx 20") {
        Tier::Rtx20To30
    } else if contains(s, "gtx") || contains(s, "geforce gt ") || contains(s, "geforce mx") {
        Tier::NoTensorCores
    } else {
        Tier::Unknown
    }
}

/// The first of the adapters for which there is most to be said.
pub fn best(names: &[String]) -> (r: Option<(Gpu, Tier)>)
    ensures
        match r {
            Some((g, t)) => exists|i: int|
                0 <= i < names@.len() && g.name@ == (#[trigger] names@[i])@ && t == tier_of(
                    names@[i]@,
                ) && (forall|j: int|
                    0 <= j < names@.len() ==> tier_of((#[trigger] names@[j])@).rank() <= t.rank())
                    && forall|j: int|
                    0 <= j < i ==> tier_of((#[trigger] names@[j])@).rank() < t.rank(),
            None => names@.len() == 0,
        },
        r matches Some((_, t)) ==> (t.runs() <==> exists|j: int|
            0 <= j < names@.len() && tier_of((#[trigger] names@[j])@).runs()),
{
    if names.len() == 0 {
        return None;
    }
    let mut at: usize = 0;
    let mut tier = classify(names[0].as_str());
    let mut i: usize = 1;
    while i < names.len()
        invariant
            at < i <= names@.len(),
            tier == tier_of(names@[at as int]@),
            forall|j: int|
                0 <= j < i ==> tier_of((#[trigger] names@[j])@).rank() <= tier.rank(),
            forall|j: int|
                0 <= j < at ==> tier_of((#[trigger] names@[j])@).rank() < tier.rank(),
        decreases names@.len() - i,
    {
        let t = classify(names[i].as_str());
        if t.order() > tier.order() {
            at = i;
            tier = t;
        }
        i += 1;
    }
    Some((Gpu { name: names[at].clone() }, tier))
}

} // verus!
