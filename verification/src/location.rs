//! Source locations of log statements and their lookup by format index.

use vstd::prelude::*;
use vstd::string::StringExecFns;
use std::collections::BTreeMap;

verus! {

/// Where a log statement stands in the producer's source.
#[derive(Debug, Clone, PartialEq, Eq)]
pub struct Location {
    pub file: String,
    pub line: u64,
    pub module: String,
}

/// The mathematical value of a [`Location`].
pub struct LocationModel {
    pub file: Seq<char>,
    pub line: u64,
    pub module: Seq<char>,
}

impl View for Location {
    type V = LocationModel;

    open spec fn view(&self) -> LocationModel {
        LocationModel { file: self.file@, line: self.line, module: self.module@ }
    }
}

impl DeepView for Location {
    type V = LocationModel;

    open spec fn deep_view(&self) -> LocationModel {
        self@
    }
}

/// The location table as a map from format index to location value.
pub open spec fn table_model(table: Map<u64, Location>) -> Map<u64, LocationModel> {
    Map::new(|k: u64| table.contains_key(k), |k: u64| table[k]@)
}

/// The location that stands for a format index the table does not hold:
/// no file, line zero, and the placeholder module.
pub open spec fn unresolved() -> LocationModel {
    LocationModel { file: Seq::<char>::empty(), line: 0, module: "rp_pico"@ }
}

/// The location attributed to a format index: the table's entry where there
/// is one, the placeholder otherwise.
pub open spec fn resolve(table: Map<u64, LocationModel>, index: u64) -> LocationModel {
    if table.contains_key(index) {
        table[index]
    } else {
        unresolved()
    }
}

/// Looks up the location of a format index. An index that the table does not
/// hold is no failure: it gets the placeholder location.
pub fn lookup(table: &BTreeMap<u64, Location>, index: u64) -> (loc: Location)
    ensures
        loc@ == resolve(table_model(table@), index),
{
    match table.get(&index) {
        Some(found) => Location {
            file: found.file.clone(),
            line: found.line,
            module: found.module.clone(),
        },
        None => Location {
            file: String::new(),
            line: 0,
            module: String::from_str("rp_pico"),
        },
    }
}

} // verus!
