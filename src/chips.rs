use vstd::prelude::*;

use std::collections::HashMap;

use crate::error::GridError;
use crate::grid::{is_valid_target, target_check};

verus! {

broadcast use vstd::std_specs::hash::group_hash_axioms;

/// The kind of a chip; a buff only reaches cells of its own kind.
#[derive(Debug, Clone, Copy, PartialEq, Eq, Structural)]
pub enum ChipType {
    Empty,
    Defensive,
    Offensive,
}

/// The static definition of a chip.
///
/// Fractional quantities are fixed-point numbers in hundredths: `increase`,
/// `more`, `add` and `eff` hold 100 for 1.0. `value` is in whole points.
#[derive(Debug)]
pub struct ChipData {
    /// Display name; not read by the evaluation.
    pub name: String,
    /// Flat value that the chip gives its own cell, in whole points.
    pub value: u32,
    pub c_type: ChipType,
    /// Added to a buffed cell's increase layer (hundredths).
    pub increase: u32,
    /// A buffed cell's more layer is multiplied by `1 + more` (hundredths).
    pub more: u32,
    /// Added to a buffed cell's flat layer (hundredths of a point).
    pub add: u32,
    /// Effect multiplier of the chip's own cell (hundredths).
    pub eff: u32,
    /// Signed linear offsets that the chip buffs, relative to its own cell.
    pub targets: Option<Vec<i32>>,
}

/// The chip catalog: chip identifier to definition.
pub struct ChipLib {
    lib: HashMap<i32, ChipData>,
}

impl View for ChipLib {
    type V = Map<i32, ChipData>;

    closed spec fn view(&self) -> Map<i32, ChipData> {
        self.lib@
    }
}

impl ChipLib {
    /// An empty catalog.
    pub fn new() -> (r: ChipLib)
        ensures
            r@ == Map::<i32, ChipData>::empty(),
    {
        ChipLib { lib: HashMap::new() }
    }

    /// Registers `data` under the identifier `index`, replacing any earlier entry.
    pub fn add(&mut self, index: i32, data: ChipData)
        ensures
            final(self)@ == old(self)@.insert(index, data),
    {
        self.lib.insert(index, data);
    }

    /// The definition registered under `index`.
    pub fn get(&self, index: i32) -> (r: Result<&ChipData, GridError>)
        ensures
            match r {
                Ok(d) => self@.contains_key(index) && *d == self@[index],
                Err(e) => !self@.contains_key(index) && e == GridError::ChipNotFound,
            },
    {
        match self.lib.get(&index) {
            Some(d) => Ok(d),
            None => Err(GridError::ChipNotFound),
        }
    }

    /// Whether `origin + *target` is a valid target of a chip at `origin`.
    pub fn range_check(&self, origin: i32, target: &i32) -> (r: Result<bool, GridError>)
        ensures
            r == target_check(origin as int, *target),
    {
        is_valid_target(origin, *target)
    }
}

/// A chip definition without targets.
fn plain_chip(name: &str, value: u32, c_type: ChipType, add: u32) -> (r: ChipData)
    ensures
        r.name@ == name@,
        r.value == value,
        r.c_type == c_type,
        r.increase == 0,
        r.more == 0,
        r.add == add,
        r.eff == 100,
        r.targets is None,
{
    ChipData {
        name: name.to_string(),
        value,
        c_type,
        increase: 0,
        more: 0,
        add,
        eff: 100,
        targets: None,
    }
}

/// The catalog's seed set: the neutral "Empty" chip under 0, "Defend"
/// (one defensive point, adds one point when buffing) under 1, and "Strike"
/// (one offensive point) under 2.
pub fn chip_setup() -> (r: ChipLib)
    ensures
        r@.dom() == set![0i32, 1i32, 2i32],
        r@[0].name@ == "Empty"@ && r@[0].value == 0 && r@[0].c_type == ChipType::Empty
            && r@[0].add == 0,
        r@[1].name@ == "Defend"@ && r@[1].value == 1 && r@[1].c_type == ChipType::Defensive
            && r@[1].add == 100,
        r@[2].name@ == "Strike"@ && r@[2].value == 1 && r@[2].c_type == ChipType::Offensive
            && r@[2].add == 0,
        forall|k: i32|
            #![trigger r@[k]]
            r@.contains_key(k) ==> r@[k].increase == 0 && r@[k].more == 0 && r@[k].eff == 100
                && r@[k].targets is None,
{
    let mut chip_lib = ChipLib::new();
    chip_lib.add(0, plain_chip("Empty", 0, ChipType::Empty, 0));
    chip_lib.add(1, plain_chip("Defend", 1, ChipType::Defensive, 100));
    chip_lib.add(2, plain_chip("Strike", 1, ChipType::Offensive, 0));
    assert(chip_lib@.dom() =~= set![0i32, 1i32, 2i32]);
    chip_lib
}

} // verus!
