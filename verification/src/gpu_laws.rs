//! What holds of display adapters, by the words in their names.
use vstd::prelude::*;

use crate::chars::lower;
use crate::gpu::{is_virtual, tier_of, Tier};
use crate::strs::{occurs, same_fold};

verus! {

/// The name of an adapter holds the word, case aside.
pub open spec fn names(name: Seq<char>, word: Seq<char>) -> bool {
    occurs(lower(name), word)
}

/// Every NVIDIA card of the RTX 20, 30, 40 and 50 series can run the model.
pub proof fn law_rtx_runs(name: Seq<char>)
    requires
        names(name, "nvidia"@),
        names(name, "rtx 20"@) || names(name, "rtx 30"@) || names(name, "rtx 40"@) || names(
            name,
            "rtx 50"@,
        ),
    ensures
        tier_of(name).runs(),
        tier_of(name) != Tier::NoTensorCores,
        tier_of(name) != Tier::NotNvidia,
{
}

/// A real NVIDIA card has the tier of the newest series that its name holds.
pub proof fn law_rtx_tier(name: Seq<char>)
    requires
        names(name, "nvidia"@),
        !is_virtual(name),
    ensures
        tier_of(name) == Tier::Rtx50 <==> names(name, "rtx 50"@),
        tier_of(name) == Tier::Rtx40 <==> names(name, "rtx 40"@) && !names(name, "rtx 50"@),
        tier_of(name) == Tier::Rtx20To30 <==> (names(name, "rtx 20"@) || names(name, "rtx 30"@))
            && !names(name, "rtx 40"@) && !names(name, "rtx 50"@),
{
}

/// Only a GTX, GT or MX card of NVIDIA is said to lack tensor cores, and each of
/// them is, unless its name holds an RTX series as well.
pub proof fn law_no_tensor_cores(name: Seq<char>)
    ensures
        tier_of(name) == Tier::NoTensorCores ==> names(name, "nvidia"@) && (names(name, "gtx"@)
            || names(name, "geforce gt "@) || names(name, "geforce mx"@)),
        names(name, "nvidia"@) && !is_virtual(name) && (names(name, "gtx"@) || names(
            name,
            "geforce gt "@,
        ) || names(name, "geforce mx"@)) && !names(name, "rtx 20"@) && !names(name, "rtx 30"@)
            && !names(name, "rtx 40"@) && !names(name, "rtx 50"@) ==> tier_of(name)
            == Tier::NoTensorCores && !tier_of(name).runs(),
{
}

/// A card of another maker cannot run the model; a virtual one, or an NVIDIA
/// card that the name does not tell, is let through.
pub proof fn law_other_makers(name: Seq<char>)
    ensures
        tier_of(name) == Tier::NotNvidia <==> !names(name, "nvidia"@) && !is_virtual(name),
        !names(name, "nvidia"@) && !is_virtual(name) ==> !tier_of(name).runs(),
        is_virtual(name) ==> tier_of(name) == Tier::Unknown && tier_of(name).runs(),
        tier_of(name) == Tier::Unknown ==> tier_of(name).runs(),
{
}

/// An adapter is virtual where its name holds one of the words that Windows, a
/// virtual machine or a virtual monitor puts there, and only then.
pub proof fn law_virtual(name: Seq<char>)
    ensures
        names(name, "virtual"@) ==> is_virtual(name),
        names(name, "idd"@) ==> is_virtual(name),
        names(name, "remote"@) ==> is_virtual(name),
        names(name, "hyper-v"@) ==> is_virtual(name),
        names(name, "vmware"@) ==> is_virtual(name),
        names(name, "basic display"@) ==> is_virtual(name),
        names(name, "basic render"@) ==> is_virtual(name),
        is_virtual(name) ==> names(name, "virtual"@) || names(name, "idd"@) || names(
            name,
            "remote"@,
        ) || names(name, "hyper-v"@) || names(name, "vmware"@) || names(name, "basic display"@)
            || names(name, "basic render"@),
{
}

/// The case of the letters in a name does not matter.
pub proof fn law_names_case_aside(a: Seq<char>, b: Seq<char>)
    requires
        same_fold(a, b),
    ensures
        tier_of(a) == tier_of(b),
        is_virtual(a) == is_virtual(b),
{
}

/// A card that runs the model counts for more than one that does not, and a
/// newer series for more than an older one.
pub proof fn law_ranks(a: Tier, b: Tier)
    ensures
        a.runs() && !b.runs() ==> a.rank() > b.rank(),
        a == Tier::Rtx50 && b != Tier::Rtx50 ==> a.rank() > b.rank(),
        a == Tier::Rtx40 && b != Tier::Rtx50 && b != Tier::Rtx40 ==> a.rank() > b.rank(),
        a == Tier::Rtx20To30 && b == Tier::Unknown ==> a.rank() > b.rank(),
        a.rank() == b.rank() ==> a == b,
{
}

/// A card is told by its series and what the model costs on it, or by why the
/// model does not run.
pub proof fn law_tier_labels(t: Tier)
    ensures
        t == Tier::Rtx50 ==> t.says() == "RTX 50, full speed"@,
        t == Tier::Rtx40 ==> t.says() == "RTX 40, moderate cost"@,
        t == Tier::Rtx20To30 ==> t.says() == "RTX 20/30, heavy cost"@,
        t == Tier::Unknown ==> t.says() == "unknown card"@,
        !t.runs() ==> t.says() == "no tensor cores"@ || t.says() == "not NVIDIA"@,
        t.says() == "not NVIDIA"@ <==> t == Tier::NotNvidia,
        t.says() == "no tensor cores"@ <==> t == Tier::NoTensorCores,
{
    reveal_strlit("RTX 50, full speed");
    reveal_strlit("RTX 40, moderate cost");
    reveal_strlit("RTX 20/30, heavy cost");
    reveal_strlit("unknown card");
    reveal_strlit("no tensor cores");
    reveal_strlit("not NVIDIA");
    assert("RTX 50, full speed"@.len() == 18 && "RTX 40, moderate cost"@.len() == 21);
    assert("RTX 20/30, heavy cost"@.len() == 21 && "unknown card"@.len() == 12);
    assert("no tensor cores"@.len() == 15 && "not NVIDIA"@.len() == 10);
}

} // verus!
