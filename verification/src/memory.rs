//! The machine's memory: a cell for every index, zero until written.

use std::collections::HashMap;
use vstd::prelude::*;

verus! {

broadcast use vstd::std_specs::hash::group_hash_axioms;

/// The cells that a program image occupies: index `i` holds `data[i]`.
pub open spec fn image_cells(data: Seq<i64>) -> Map<usize, i64> {
    Map::new(|i: usize| i < data.len(), |i: usize| data[i as int])
}

/// What a read at `index` yields: the recorded value, or zero for a cell
/// that was never part of the image and never written.
pub open spec fn cell_value(cells: Map<usize, i64>, index: usize) -> i64 {
    if cells.contains_key(index) {
        cells[index]
    } else {
        0
    }
}

/// Signed-integer cells addressed from zero. The program image is held
/// densely; cells beyond it are recorded one by one as they are written.
#[derive(Clone)]
pub struct Memory {
    initial_data: Vec<i64>,
    expanded_memory: HashMap<usize, i64>,
}

impl View for Memory {
    type V = Map<usize, i64>;

    /// The recorded cells: those of the image and those written since.
    closed spec fn view(&self) -> Map<usize, i64> {
        Map::new(
            |i: usize| i < self.initial_data@.len() || self.expanded_memory@.contains_key(i),
            |i: usize|
                if i < self.initial_data@.len() {
                    self.initial_data@[i as int]
                } else {
                    self.expanded_memory@[i]
                },
        )
    }
}

impl Memory {
    /// A memory that holds `p_data` from index zero on and nothing else.
    pub fn new(p_data: Vec<i64>) -> (m: Memory)
        ensures
            m@ == image_cells(p_data@),
    {
        let m = Memory { initial_data: p_data, expanded_memory: HashMap::new() };
        assert(m@ =~= image_cells(p_data@));
        m
    }

    /// The value of the cell at `index`.
    pub fn read(&self, index: usize) -> (value: i64)
        ensures
            value == cell_value(self@, index),
    {
        if index >= self.initial_data.len() {
            match self.expanded_memory.get(&index) {
                Some(v) => *v,
                None => 0,
            }
        } else {
            self.initial_data[index]
        }
    }

    /// Stores `value` in the cell at `index`; every other cell keeps its value.
    pub fn write(&mut self, index: usize, value: i64)
        ensures
            final(self)@ == old(self)@.insert(index, value),
    {
        if index >= self.initial_data.len() {
            self.expanded_memory.insert(index, value);
        } else {
            self.initial_data[index] = value;
        }
        assert(self@ =~= old(self)@.insert(index, value));
    }
}

/// A read returns what the last write to that cell stored, and a write
/// leaves the value of every other cell as it was.
pub proof fn lemma_read_after_write(cells: Map<usize, i64>, index: usize, value: i64, other: usize)
    ensures
        cell_value(cells.insert(index, value), index) == value,
        other != index ==> cell_value(cells.insert(index, value), other) == cell_value(
            cells,
            other,
        ),
{
}

/// A write records the cell it writes and no other: the recorded cells grow
/// by at most one, however far from the image the cell lies.
pub proof fn lemma_write_records_one_cell(cells: Map<usize, i64>, index: usize, value: i64)
    ensures
        cells.insert(index, value).dom() == cells.dom().insert(index),
        cells.dom().finite() ==> cells.insert(index, value).dom().finite(),
        cells.dom().finite() ==> cells.insert(index, value).dom().len() <= cells.dom().len() + 1,
{
    assert(cells.insert(index, value).dom() =~= cells.dom().insert(index));
    if cells.dom().finite() {
        if cells.dom().contains(index) {
            assert(cells.dom().insert(index) =~= cells.dom());
        }
    }
}

/// In a fresh memory the image reads back as given and every cell beyond it
/// reads as zero, however large its index.
pub proof fn lemma_fresh_memory_reads(data: Seq<i64>, index: usize)
    ensures
        index < data.len() ==> cell_value(image_cells(data), index) == data[index as int],
        index >= data.len() ==> cell_value(image_cells(data), index) == 0,
{
}

} // verus!
