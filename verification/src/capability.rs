//! What an adapter declares it can do, per operating system.
use vstd::prelude::*;

verus! {

/// Something an adapter may support.
#[derive(Clone, Copy, Debug, PartialEq, Eq, Structural)]
pub enum Capability {
    /// Suspending and resuming the agent.
    Pause,
    /// Sending text to the agent.
    Interaction,
}

impl Capability {
    /// The stable label.
    pub open spec fn label(self) -> Seq<char> {
        match self {
            Capability::Pause => "pause"@,
            Capability::Interaction => "interaction"@,
        }
    }

    /// The stable label.
    pub fn as_str(&self) -> (r: &'static str)
        ensures
            r@ == self.label(),
    {
        match self {
            Capability::Pause => "pause",
            Capability::Interaction => "interaction",
        }
    }
}

/// An operating system that declarations tell apart.
#[derive(Clone, Copy, Debug, PartialEq, Eq, Structural)]
pub enum OsId {
    /// Linux.
    Linux,
    /// macOS.
    Macos,
    /// Windows.
    Windows,
    /// Any other.
    Other,
}

impl OsId {
    /// The stable label.
    pub open spec fn label(self) -> Seq<char> {
        match self {
            OsId::Linux => "linux"@,
            OsId::Macos => "macos"@,
            OsId::Windows => "windows"@,
            OsId::Other => "other"@,
        }
    }

    /// The stable label.
    pub fn as_str(&self) -> (r: &'static str)
        ensures
            r@ == self.label(),
    {
        match self {
            OsId::Linux => "linux",
            OsId::Macos => "macos",
            OsId::Windows => "windows",
            OsId::Other => "other",
        }
    }
}

/// How well a capability is supported.
#[derive(Clone, Copy, Debug, PartialEq, Eq, Structural)]
pub enum SupportLevel {
    /// The engine can enforce it.
    Guaranteed,
    /// The adapter cooperates; nothing enforces it.
    BestEffort,
    /// Not at all.
    Unsupported,
}

impl SupportLevel {
    /// The stable label.
    pub open spec fn label(self) -> Seq<char> {
        match self {
            SupportLevel::Guaranteed => "guaranteed"@,
            SupportLevel::BestEffort => "best-effort"@,
            SupportLevel::Unsupported => "unsupported"@,
        }
    }

    /// The stable label.
    pub fn as_str(&self) -> (r: &'static str)
        ensures
            r@ == self.label(),
    {
        match self {
            SupportLevel::Guaranteed => "guaranteed",
            SupportLevel::BestEffort => "best-effort",
            SupportLevel::Unsupported => "unsupported",
        }
    }
}

/// One declared level.
#[derive(Clone, Copy, Debug, PartialEq, Eq, Structural)]
pub struct Declared {
    /// Of what.
    pub capability: Capability,
    /// Where.
    pub os: OsId,
    /// How well.
    pub level: SupportLevel,
}

/// The full per-system declaration of an adapter; a later entry for the same
/// capability and system replaces an earlier one.
#[derive(Clone, Debug, PartialEq, Eq)]
pub struct CapabilityDeclaration {
    /// The entries in the order they were declared.
    pub entries: Vec<Declared>,
}

/// The level that `entries` declare for a capability on a system: that of the
/// last entry for the pair, and unsupported where there is none.
pub open spec fn declared_level(
    entries: Seq<Declared>,
    capability: Capability,
    os: OsId,
) -> SupportLevel
    decreases entries.len(),
{
    if entries.len() == 0 {
        SupportLevel::Unsupported
    } else if entries.last().capability == capability && entries.last().os == os {
        entries.last().level
    } else {
        declared_level(entries.drop_last(), capability, os)
    }
}

/// Whether `entries` declare anything for a capability on a system.
pub open spec fn declares(entries: Seq<Declared>, capability: Capability, os: OsId) -> bool {
    exists|i: int|
        0 <= i < entries.len() && #[trigger] entries[i].capability == capability && entries[i].os
            == os
}

impl CapabilityDeclaration {
    /// The declaration with no entry.
    pub fn new() -> (r: Self)
        ensures
            r.entries@ == Seq::<Declared>::empty(),
    {
        CapabilityDeclaration { entries: Vec::new() }
    }

    /// This declaration with one more entry.
    pub fn with(self, capability: Capability, os: OsId, level: SupportLevel) -> (r: Self)
        ensures
            r.entries@ == self.entries@.push(Declared { capability, os, level }),
    {
        let mut entries = self.entries;
        entries.push(Declared { capability, os, level });
        CapabilityDeclaration { entries }
    }

    /// The level declared for a capability on a system.
    pub fn support(&self, capability: Capability, os: OsId) -> (r: SupportLevel)
        ensures
            r == declared_level(self.entries@, capability, os),
    {
        let mut left: usize = self.entries.len();
        assert(self.entries@.take(left as int) =~= self.entries@);
        while left > 0
            invariant
                left <= self.entries@.len(),
                declared_level(self.entries@, capability, os) == declared_level(
                    self.entries@.take(left as int),
                    capability,
                    os,
                ),
            decreases left,
        {
            let entry = self.entries[left - 1];
            assert(self.entries@.take(left as int).last() == entry);
            assert(self.entries@.take(left as int).drop_last() =~= self.entries@.take(left - 1));
            if entry.capability == capability && entry.os == os {
                return entry.level;
            }
            left = left - 1;
        }
        SupportLevel::Unsupported
    }

    /// The levels that hold on one system: for each capability that is declared
    /// there, its level.
    pub fn effective(&self, os: OsId) -> (r: EffectiveCapabilities)
        ensures
            r.os == os,
            r.entries@ == effective_entries(self.entries@, os),
    {
        let mut entries: Vec<(Capability, SupportLevel)> = Vec::new();
        if self.declares_on(Capability::Pause, os) {
            entries.push((Capability::Pause, self.support(Capability::Pause, os)));
        }
        if self.declares_on(Capability::Interaction, os) {
            entries.push((Capability::Interaction, self.support(Capability::Interaction, os)));
        }
        assert(entries@ =~= effective_entries(self.entries@, os));
        EffectiveCapabilities { os, entries }
    }

    fn declares_on(&self, capability: Capability, os: OsId) -> (r: bool)
        ensures
            r == declares(self.entries@, capability, os),
    {
        let mut i: usize = 0;
        while i < self.entries.len()
            invariant
                i <= self.entries@.len(),
                forall|j: int|
                    0 <= j < i ==> !(#[trigger] self.entries@[j].capability == capability
                        && self.entries@[j].os == os),
            decreases self.entries@.len() - i,
        {
            let entry = self.entries[i];
            if entry.capability == capability && entry.os == os {
                assert(self.entries@[i as int].capability == capability);
                return true;
            }
            i = i + 1;
        }
        false
    }
}

/// The capabilities that `entries` declare on a system, each with its level.
pub open spec fn effective_entries(entries: Seq<Declared>, os: OsId) -> Seq<
    (Capability, SupportLevel),
> {
    level_entry(entries, Capability::Pause, os) + level_entry(entries, Capability::Interaction, os)
}

/// The entry for one capability on a system, where it is declared there.
pub open spec fn level_entry(entries: Seq<Declared>, capability: Capability, os: OsId) -> Seq<
    (Capability, SupportLevel),
> {
    if declares(entries, capability, os) {
        seq![(capability, declared_level(entries, capability, os))]
    } else {
        Seq::empty()
    }
}

/// The levels that hold on one system.
#[derive(Clone, Debug, PartialEq, Eq)]
pub struct EffectiveCapabilities {
    /// The system.
    pub os: OsId,
    /// The declared capabilities and their levels there.
    pub entries: Vec<(Capability, SupportLevel)>,
}

/// Declaring a level makes it the level of that pair and leaves every other
/// pair's level as it was.
pub proof fn law_declaring_sets_one_level(
    entries: Seq<Declared>,
    declared: Declared,
    capability: Capability,
    os: OsId,
)
    ensures
        declared_level(entries.push(declared), capability, os) == if declared.capability
            == capability && declared.os == os {
            declared.level
        } else {
            declared_level(entries, capability, os)
        },
{
    assert(entries.push(declared).drop_last() =~= entries);
}

/// What is not declared is not supported, and what is declared has the level that was declared for
/// it last.
pub proof fn law_the_last_declaration_counts(
    entries: Seq<Declared>,
    capability: Capability,
    os: OsId,
    i: int,
)
    ensures
        !declares(entries, capability, os) ==> declared_level(entries, capability, os)
            == SupportLevel::Unsupported,
        0 <= i < entries.len() && entries[i].capability == capability && entries[i].os == os && (
        forall|j: int|
            i < j < entries.len() ==> !(#[trigger] entries[j].capability == capability
                && entries[j].os == os)) ==> declared_level(entries, capability, os)
            == entries[i].level,
    decreases entries.len(),
{
    if entries.len() > 0 {
        let front = entries.drop_last();
        let last = entries.len() - 1;
        assert(entries[last] == entries.last());
        if entries[last].capability == capability && entries[last].os == os {
            assert(declares(entries, capability, os));
        } else {
            law_the_last_declaration_counts(front, capability, os, i);
            if declares(front, capability, os) {
                let j = choose|j: int|
                    0 <= j < front.len() && #[trigger] front[j].capability == capability
                        && front[j].os == os;
                assert(entries[j].capability == capability);
            }
            if 0 <= i < last {
                assert(front[i] == entries[i]);
                if forall|j: int|
                    i < j < entries.len() ==> !(#[trigger] entries[j].capability == capability
                        && entries[j].os == os) {
                    assert forall|j: int| i < j < front.len() implies !(
                    #[trigger] front[j].capability == capability && front[j].os == os) by {
                        assert(entries[j].capability == front[j].capability);
                    }
                }
            }
        }
    }
}

/// What an adapter can do on one operating system lists each capability that is declared there, and
/// no other, once, with the level declared for it there.
pub proof fn law_effective_lists_what_is_declared(
    entries: Seq<Declared>,
    os: OsId,
    capability: Capability,
    level: SupportLevel,
)
    ensures
        effective_entries(entries, os).contains((capability, level)) <==> declares(
            entries,
            capability,
            os,
        ) && level == declared_level(entries, capability, os),
        effective_entries(entries, os).no_duplicates(),
{
    let listed = effective_entries(entries, os);
    if declares(entries, capability, os) {
        let entry = (capability, declared_level(entries, capability, os));
        if capability == Capability::Pause {
            assert(listed[0] == entry);
        } else {
            assert(listed[listed.len() - 1] == entry);
        }
    }
}

} // verus!
