//! The loot-table data model: a selection mode and an ordered sequence of
//! named entries, all sharing that mode.

use vstd::prelude::*;

verus! {

/// How entries of a table are drawn: each with equal probability, or each
/// with probability proportional to its integer weight.
#[derive(Clone, Copy, Debug, PartialEq, Eq, Structural)]
pub enum Mode {
    Uniform,
    Weighted,
}

/// One named item of a loot table. `Unweighted` entries belong to `Uniform`
/// tables, `Weighted` entries to `Weighted` tables.
#[derive(Debug)]
pub enum LootEntry {
    Unweighted { name: String },
    Weighted { name: String, weight: u64 },
}

/// The mathematical value of a [`LootEntry`]: its name as a sequence of
/// characters, and its weight where it has one.
pub enum EntryModel {
    Unweighted { name: Seq<char> },
    Weighted { name: Seq<char>, weight: u64 },
}

impl View for LootEntry {
    type V = EntryModel;

    open spec fn view(&self) -> EntryModel {
        match self {
            LootEntry::Unweighted { name } => EntryModel::Unweighted { name: name@ },
            LootEntry::Weighted { name, weight } => EntryModel::Weighted {
                name: name@,
                weight: *weight,
            },
        }
    }
}

/// The name of an entry.
pub open spec fn entry_name(e: EntryModel) -> Seq<char> {
    match e {
        EntryModel::Unweighted { name } => name,
        EntryModel::Weighted { name, .. } => name,
    }
}

/// The weight of an entry; an unweighted entry counts as weight zero.
pub open spec fn entry_weight(e: EntryModel) -> u64 {
    match e {
        EntryModel::Unweighted { .. } => 0,
        EntryModel::Weighted { weight, .. } => weight,
    }
}

/// Whether an entry's variant agrees with a table mode.
pub open spec fn entry_matches_mode(e: EntryModel, mode: Mode) -> bool {
    match e {
        EntryModel::Unweighted { .. } => mode == Mode::Uniform,
        EntryModel::Weighted { .. } => mode == Mode::Weighted,
    }
}

/// The mathematical value of a [`LootTable`].
pub struct TableModel {
    pub mode: Mode,
    pub entries: Seq<EntryModel>,
}

/// A parsed loot table: a mode and the entries in input order. All entries
/// share the table's mode (see [`LootTable::wf`]); the table is never
/// mixed-mode.
#[derive(Debug)]
pub struct LootTable {
    pub mode: Mode,
    pub entries: Vec<LootEntry>,
}

impl DeepView for LootEntry {
    type V = EntryModel;

    open spec fn deep_view(&self) -> EntryModel {
        self@
    }
}

impl View for LootTable {
    type V = TableModel;

    open spec fn view(&self) -> TableModel {
        TableModel { mode: self.mode, entries: self.entries.deep_view() }
    }
}

impl LootTable {
    /// Well-formedness: every entry's variant agrees with the table's mode.
    pub open spec fn wf(&self) -> bool {
        forall|i: int|
            0 <= i < self@.entries.len() ==> entry_matches_mode(
                #[trigger] self@.entries[i],
                self@.mode,
            )
    }

    /// A uniform table over the given names, kept in order.
    pub fn new_uniform(names: Vec<String>) -> (t: LootTable)
        ensures
            t@.mode == Mode::Uniform,
            t@.entries.len() == names@.len(),
            forall|i: int|
                0 <= i < names@.len() ==> t@.entries[i] == (EntryModel::Unweighted {
                    name: names.deep_view()[i],
                }),
            t.wf(),
    {
        let n = names.len();
        let mut entries: Vec<LootEntry> = Vec::new();
        let mut k: usize = 0;
        while k < n
            invariant
                n == names@.len(),
                k <= n,
                entries.deep_view().len() == k,
                forall|j: int|
                    0 <= j < k ==> entries.deep_view()[j] == (EntryModel::Unweighted {
                        name: names.deep_view()[j],
                    }),
            decreases n - k,
        {
            let entry = LootEntry::Unweighted { name: names[k].clone() };
            let ghost old_dv = entries.deep_view();
            entries.push(entry);
            proof {
                assert(entries.deep_view() =~= old_dv.push(
                    EntryModel::Unweighted { name: names.deep_view()[k as int] },
                ));
            }
            k += 1;
        }
        LootTable { mode: Mode::Uniform, entries: entries }
    }

    /// A weighted table over the given pairs of name and weight, kept in
    /// order.
    pub fn new_weighted(items: Vec<(String, u64)>) -> (t: LootTable)
        ensures
            t@.mode == Mode::Weighted,
            t@.entries.len() == items@.len(),
            forall|i: int|
                0 <= i < items@.len() ==> t@.entries[i] == (EntryModel::Weighted {
                    name: items@[i].0@,
                    weight: items@[i].1,
                }),
            t.wf(),
    {
        let n = items.len();
        let mut entries: Vec<LootEntry> = Vec::new();
        let mut k: usize = 0;
        while k < n
            invariant
                n == items@.len(),
                k <= n,
                entries.deep_view().len() == k,
                forall|j: int|
                    0 <= j < k ==> entries.deep_view()[j] == (EntryModel::Weighted {
                        name: items@[j].0@,
                        weight: items@[j].1,
                    }),
            decreases n - k,
        {
            let entry = LootEntry::Weighted { name: items[k].0.clone(), weight: items[k].1 };
            let ghost old_dv = entries.deep_view();
            entries.push(entry);
            proof {
                assert(entries.deep_view() =~= old_dv.push(
                    EntryModel::Weighted { name: items@[k as int].0@, weight: items@[k as int].1 },
                ));
            }
            k += 1;
        }
        LootTable { mode: Mode::Weighted, entries: entries }
    }
}

impl LootEntry {
    /// The entry's name, whichever variant it is.
    pub fn name(&self) -> (r: &String)
        ensures
            r@ == entry_name(self@),
    {
        match self {
            LootEntry::Unweighted { name } => name,
            LootEntry::Weighted { name, .. } => name,
        }
    }

    /// The entry's weight; an unweighted entry counts as weight zero.
    pub fn weight_or_zero(&self) -> (w: u64)
        ensures
            w == entry_weight(self@),
    {
        match self {
            LootEntry::Unweighted { .. } => 0,
            LootEntry::Weighted { weight, .. } => *weight,
        }
    }
}

} // verus!
