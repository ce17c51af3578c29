//! Solved blocks, remembered per oracle.

use vstd::prelude::*;

use crate::block::Block;
use crate::calibration_response::{CalibrationResponse, CalibrationResponseView};
use crate::oracle_location::{OracleLocation, OracleLocationView};

verus! {

/// What an oracle must agree in for a remembered result to hold for it: its
/// place and, for a web oracle, the response it gives to invalid padding.
#[derive(Clone, Debug)]
pub struct CacheConfig {
    oracle_location: OracleLocation,
    calibration_response: Option<CalibrationResponse>,
}

/// The identity of an oracle as a value.
pub struct CacheConfigView {
    pub oracle_location: OracleLocationView,
    pub calibration_response: Option<CalibrationResponseView>,
}

impl View for CacheConfig {
    type V = CacheConfigView;

    closed spec fn view(&self) -> CacheConfigView {
        CacheConfigView {
            oracle_location: self.oracle_location@,
            calibration_response: match self.calibration_response {
                Some(response) => Some(response@),
                None => None,
            },
        }
    }
}

impl CacheConfig {
    /// The identity of the oracle at `oracle_location` that answers invalid
    /// padding with `calibration_response`, if it is calibrated at all.
    pub fn new(oracle_location: OracleLocation, calibration_response: Option<CalibrationResponse>) -> (config:
        CacheConfig)
        ensures
            config@ == (CacheConfigView {
                oracle_location: oracle_location@,
                calibration_response: match calibration_response {
                    Some(response) => Some(response@),
                    None => None,
                },
            }),
    {
        CacheConfig { oracle_location, calibration_response }
    }

    /// The place of the oracle.
    pub fn oracle_location(&self) -> (location: &OracleLocation)
        ensures
            location@ == self@.oracle_location,
    {
        &self.oracle_location
    }

    /// The response that the oracle gives to invalid padding, if calibrated.
    pub fn calibration_response(&self) -> (response: &Option<CalibrationResponse>)
        ensures
            match *response {
                Some(held) => self@.calibration_response == Some(held@),
                None => self@.calibration_response is None,
            },
    {
        &self.calibration_response
    }

    /// Whether both stand for the same oracle.
    pub fn same_as(&self, other: &CacheConfig) -> (same: bool)
        ensures
            same == (self@ == other@),
    {
        if !self.oracle_location.same_as(&other.oracle_location) {
            return false;
        }
        match (&self.calibration_response, &other.calibration_response) {
            (Some(left), Some(right)) => left.same_as(right),
            (None, None) => true,
            _ => false,
        }
    }

    /// A copy of this identity.
    pub fn duplicate(&self) -> (copy: CacheConfig)
        ensures
            copy@ == self@,
    {
        CacheConfig {
            oracle_location: self.oracle_location.duplicate(),
            calibration_response: match &self.calibration_response {
                Some(response) => Some(response.duplicate()),
                None => None,
            },
        }
    }
}

/// One remembered result: the forged block that solves `target` behind
/// `previous`.
#[derive(Clone, Copy, Debug)]
pub struct CacheEntry {
    pub previous: Block,
    pub target: Block,
    pub solution: Block,
}

/// The results remembered for one oracle.
#[derive(Debug)]
pub struct CacheSection {
    pub config: CacheConfig,
    pub entries: Vec<CacheEntry>,
}

/// The solution that the first entry for the pair holds, if there is one.
pub open spec fn entry_for(entries: Seq<CacheEntry>, previous: Seq<u8>, target: Seq<u8>) -> Option<
    Seq<u8>,
>
    decreases entries.len(),
{
    if entries.len() == 0 {
        None
    } else if entries[0].previous@ == previous && entries[0].target@ == target {
        Some(entries[0].solution@)
    } else {
        entry_for(entries.drop_first(), previous, target)
    }
}

/// The entries of the first section for `config`; none where no section is
/// for it.
pub open spec fn entries_for(sections: Seq<CacheSection>, config: CacheConfigView) -> Seq<
    CacheEntry,
>
    decreases sections.len(),
{
    if sections.len() == 0 {
        Seq::empty()
    } else if sections[0].config@ == config {
        sections[0].entries@
    } else {
        entries_for(sections.drop_first(), config)
    }
}

/// The sections that are for another oracle than `config`, in order.
pub open spec fn sections_of_others(sections: Seq<CacheSection>, config: CacheConfigView) -> Seq<
    CacheSection,
> {
    sections.filter(|section: CacheSection| section.config@ != config)
}

/// The results remembered for the oracle at hand, beside those for others.
pub struct Cache {
    config: CacheConfig,
    entries: Vec<CacheEntry>,
    others: Vec<CacheSection>,
}

impl Cache {
    /// The oracle that results are looked up and remembered for.
    pub closed spec fn spec_config(self) -> CacheConfigView {
        self.config@
    }

    /// The entries for the oracle at hand, oldest first.
    pub closed spec fn spec_entries(self) -> Seq<CacheEntry> {
        self.entries@
    }

    /// The sections for other oracles.
    pub closed spec fn spec_others(self) -> Seq<CacheSection> {
        self.others@
    }

    /// The solution remembered for the pair, if there is one.
    pub open spec fn stored(self, previous: Seq<u8>, target: Seq<u8>) -> Option<Seq<u8>> {
        entry_for(self.spec_entries(), previous, target)
    }

    /// A cache that holds nothing.
    pub fn new(config: CacheConfig) -> (cache: Cache)
        ensures
            cache.spec_config() == config@,
            cache.spec_entries() == Seq::<CacheEntry>::empty(),
            cache.spec_others() == Seq::<CacheSection>::empty(),
    {
        Cache { config, entries: Vec::new(), others: Vec::new() }
    }

    /// The cache for the oracle `config` out of the sections that were
    /// stored: the entries of the first section for that oracle are at hand,
    /// the sections for other oracles are kept as they are.
    pub fn load(config: CacheConfig, sections: Vec<CacheSection>) -> (cache: Cache)
        ensures
            cache.spec_config() == config@,
            cache.spec_entries() == entries_for(sections@, config@),
            cache.spec_others() == sections_of_others(sections@, config@),
    {
        let ghost all = sections@;
        let mut sections = sections;
        let mut entries: Vec<CacheEntry> = Vec::new();
        let mut found = false;
        let mut others: Vec<CacheSection> = Vec::new();
        let ghost mut done: Seq<CacheSection> = Seq::empty();
        while sections.len() > 0
            invariant
                all == done + sections@,
                others@ == sections_of_others(done, config@),
                found ==> entries@ == entries_for(all, config@),
                !found ==> entries_for(all, config@) == entries_for(sections@, config@),
                !found ==> entries@.len() == 0,
            decreases sections.len(),
        {
            let ghost before = sections@;
            let section = sections.remove(0);
            proof {
                assert(sections@ =~= before.drop_first());
                assert(section == before[0]);
                assert(done.push(section).drop_last() =~= done);
                reveal(Seq::filter);
                assert(all =~= done.push(section) + sections@);
                done = done.push(section);
            }
            if section.config.same_as(&config) {
                if !found {
                    found = true;
                    entries = section.entries;
                }
            } else {
                others.push(section);
            }
        }
        proof {
            assert(done =~= all);
        }
        Cache { config, entries, others }
    }

    /// The oracle that results are looked up and remembered for.
    pub fn config(&self) -> (config: &CacheConfig)
        ensures
            config@ == self.spec_config(),
    {
        &self.config
    }

    /// The entries for the oracle at hand.
    pub fn entries(&self) -> (entries: &Vec<CacheEntry>)
        ensures
            entries@ == self.spec_entries(),
    {
        &self.entries
    }

    /// The sections for other oracles.
    pub fn others(&self) -> (others: &Vec<CacheSection>)
        ensures
            others@ == self.spec_others(),
    {
        &self.others
    }

    fn position(&self, previous: &Block, target: &Block) -> (place: Option<usize>)
        ensures
            match place {
                Some(i) => {
                    &&& i < self.entries@.len()
                    &&& self.entries@[i as int].previous@ == previous@
                    &&& self.entries@[i as int].target@ == target@
                    &&& entry_for(self.entries@, previous@, target@) == Some(
                        self.entries@[i as int].solution@,
                    )
                    &&& forall|j: int|
                        0 <= j < i ==> !(#[trigger] self.entries@[j].previous@ == previous@
                            && self.entries@[j].target@ == target@)
                },
                None => {
                    &&& entry_for(self.entries@, previous@, target@) is None
                    &&& forall|j: int|
                        0 <= j < self.entries@.len() ==> !(#[trigger] self.entries@[j].previous@
                            == previous@ && self.entries@[j].target@ == target@)
                },
            },
    {
        let count = self.entries.len();
        let mut i: usize = 0;
        assert(self.entries@.subrange(0, count as int) =~= self.entries@);
        while i < count
            invariant
                count == self.entries@.len(),
                i <= count,
                entry_for(self.entries@, previous@, target@) == entry_for(
                    self.entries@.subrange(i as int, count as int),
                    previous@,
                    target@,
                ),
                forall|j: int|
                    0 <= j < i ==> !(#[trigger] self.entries@[j].previous@ == previous@
                        && self.entries@[j].target@ == target@),
            decreases count - i,
        {
            let entry = &self.entries[i];
            if entry.previous.same_bytes(previous) && entry.target.same_bytes(target) {
                return Some(i);
            }
            assert(self.entries@.subrange(i as int, count as int).drop_first()
                =~= self.entries@.subrange(i + 1, count as int));
            i += 1;
        }
        None
    }

    /// The solution remembered for the pair of blocks, if there is one.
    pub fn get(&self, key: &(Block, Block)) -> (found: Option<&Block>)
        ensures
            match found {
                Some(solution) => self.stored(key.0@, key.1@) == Some(solution@),
                None => self.stored(key.0@, key.1@) is None,
            },
    {
        match self.position(&key.0, &key.1) {
            Some(i) => Some(&self.entries[i].solution),
            None => None,
        }
    }

    /// Remembers `value` as the solution for the pair of blocks, in place of
    /// what was remembered for it; what is remembered for any other pair
    /// stays.
    pub fn insert(&mut self, key: (Block, Block), value: Block)
        ensures
            final(self).spec_config() == old(self).spec_config(),
            final(self).spec_others() == old(self).spec_others(),
            final(self).stored(key.0@, key.1@) == Some(value@),
            forall|previous: Seq<u8>, target: Seq<u8>|
                !(previous == key.0@ && target == key.1@) ==> #[trigger] final(self).stored(
                    previous,
                    target,
                ) == old(self).stored(previous, target),
    {
        let entry = CacheEntry { previous: key.0, target: key.1, solution: value };
        match self.position(&key.0, &key.1) {
            Some(i) => {
                proof {
                    lemma_entry_replaced(self.entries@, i as int, entry);
                }
                self.entries[i] = entry;
            },
            None => {
                proof {
                    lemma_entry_added(self.entries@, entry);
                }
                self.entries.push(entry);
            },
        }
    }

    /// All sections as they are to be stored: the one for the oracle at hand
    /// first, then those for other oracles.
    pub fn sections(&self) -> (sections: Vec<CacheSection>)
        ensures
            sections@.len() == self.spec_others().len() + 1,
            sections@[0].config@ == self.spec_config(),
            sections@[0].entries@ == self.spec_entries(),
            forall|i: int|
                0 <= i < self.spec_others().len() ==> {
                    &&& (#[trigger] sections@[i + 1]).config@ == self.spec_others()[i].config@
                    &&& sections@[i + 1].entries@ == self.spec_others()[i].entries@
                },
    {
        let mut sections: Vec<CacheSection> = Vec::new();
        sections.push(
            CacheSection { config: self.config.duplicate(), entries: copy_entries(&self.entries) },
        );
        let count = self.others.len();
        let mut i: usize = 0;
        while i < count
            invariant
                count == self.others@.len(),
                i <= count,
                sections@.len() == i + 1,
                sections@[0].config@ == self.config@,
                sections@[0].entries@ == self.entries@,
                forall|j: int|
                    0 <= j < i ==> {
                        &&& (#[trigger] sections@[j + 1]).config@ == self.others@[j].config@
                        &&& sections@[j + 1].entries@ == self.others@[j].entries@
                    },
            decreases count - i,
        {
            let other = &self.others[i];
            sections.push(
                CacheSection {
                    config: other.config.duplicate(),
                    entries: copy_entries(&other.entries),
                },
            );
            i += 1;
        }
        sections
    }
}

fn copy_entries(entries: &Vec<CacheEntry>) -> (copy: Vec<CacheEntry>)
    ensures
        copy@ == entries@,
{
    let count = entries.len();
    let mut copy: Vec<CacheEntry> = Vec::new();
    let mut i: usize = 0;
    while i < count
        invariant
            count == entries@.len(),
            i <= count,
            copy@ == entries@.subrange(0, i as int),
        decreases count - i,
    {
        copy.push(entries[i]);
        i += 1;
        assert(copy@ =~= entries@.subrange(0, i as int));
    }
    assert(copy@ =~= entries@);
    copy
}

/// Replacing the first entry for a pair changes what is found for that pair
/// and for no other.
proof fn lemma_entry_replaced(entries: Seq<CacheEntry>, at: int, entry: CacheEntry)
    requires
        0 <= at < entries.len(),
        entries[at].previous@ == entry.previous@,
        entries[at].target@ == entry.target@,
        forall|j: int|
            0 <= j < at ==> !(#[trigger] entries[j].previous@ == entry.previous@
                && entries[j].target@ == entry.target@),
    ensures
        entry_for(entries.update(at, entry), entry.previous@, entry.target@) == Some(
            entry.solution@,
        ),
        forall|previous: Seq<u8>, target: Seq<u8>|
            !(previous == entry.previous@ && target == entry.target@) ==> #[trigger] entry_for(
                entries.update(at, entry),
                previous,
                target,
            ) == entry_for(entries, previous, target),
    decreases entries.len(),
{
    let updated = entries.update(at, entry);
    if at == 0 {
        assert(updated.drop_first() =~= entries.drop_first());
    } else {
        assert(updated.drop_first() =~= entries.drop_first().update(at - 1, entry));
        assert forall|j: int| 0 <= j < at - 1 implies !(#[trigger] entries.drop_first()[j].previous@
            == entry.previous@ && entries.drop_first()[j].target@ == entry.target@) by {
            assert(entries.drop_first()[j] == entries[j + 1]);
        }
        lemma_entry_replaced(entries.drop_first(), at - 1, entry);
        assert(!(entries[0].previous@ == entry.previous@ && entries[0].target@ == entry.target@));
    }
    assert forall|previous: Seq<u8>, target: Seq<u8>|
        !(previous == entry.previous@ && target == entry.target@) implies #[trigger] entry_for(
        updated,
        previous,
        target,
    ) == entry_for(entries, previous, target) by {
        if at > 0 {
            assert(updated[0] == entries[0]);
            assert(entry_for(entries.drop_first().update(at - 1, entry), previous, target)
                == entry_for(entries.drop_first(), previous, target));
        }
    }
}

/// Adding an entry for a pair that has none changes what is found for that
/// pair and for no other.
proof fn lemma_entry_added(entries: Seq<CacheEntry>, entry: CacheEntry)
    requires
        forall|j: int|
            0 <= j < entries.len() ==> !(#[trigger] entries[j].previous@ == entry.previous@
                && entries[j].target@ == entry.target@),
    ensures
        entry_for(entries.push(entry), entry.previous@, entry.target@) == Some(entry.solution@),
        forall|previous: Seq<u8>, target: Seq<u8>|
            !(previous == entry.previous@ && target == entry.target@) ==> #[trigger] entry_for(
                entries.push(entry),
                previous,
                target,
            ) == entry_for(entries, previous, target),
    decreases entries.len(),
{
    let added = entries.push(entry);
    if entries.len() == 0 {
        assert(added.drop_first() =~= entries);
    } else {
        assert(added.drop_first() =~= entries.drop_first().push(entry));
        assert forall|j: int| 0 <= j < entries.len() - 1 implies !(
        #[trigger] entries.drop_first()[j].previous@ == entry.previous@
            && entries.drop_first()[j].target@ == entry.target@) by {
            assert(entries.drop_first()[j] == entries[j + 1]);
        }
        lemma_entry_added(entries.drop_first(), entry);
        assert(!(entries[0].previous@ == entry.previous@ && entries[0].target@ == entry.target@));
    }
    assert forall|previous: Seq<u8>, target: Seq<u8>|
        !(previous == entry.previous@ && target == entry.target@) implies #[trigger] entry_for(
        added,
        previous,
        target,
    ) == entry_for(entries, previous, target) by {
        if entries.len() > 0 {
            assert(added[0] == entries[0]);
            assert(entry_for(entries.drop_first().push(entry), previous, target) == entry_for(
                entries.drop_first(),
                previous,
                target,
            ));
        }
    }
}

} // verus!
