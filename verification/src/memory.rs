//! The machine's memory bank: 65,536 cells of 16 bits, two of them reserved.

use vstd::prelude::*;

verus! {

/// Number of cells in the memory bank.
pub const MEMORY_SIZE: usize = 65536;

/// Index of the address register: the cell that holds the address of the
/// target cell.
pub const ADDRESS_ADDRESS: usize = 65534;

/// Index of the comparison flag: the cell that the comparing instructions
/// write and the conditional branches read.
pub const COMPARISON_ADDRESS: usize = 65533;

/// The cells of a memory bank at the start of a run: all zero.
pub open spec fn zeroed() -> Seq<u16> {
    Seq::new(MEMORY_SIZE as nat, |i: int| 0u16)
}

/// The address that the address register holds: the address of the target
/// cell.
pub open spec fn address_register(cells: Seq<u16>) -> u16 {
    cells[ADDRESS_ADDRESS as int]
}

/// The content of the comparison flag.
pub open spec fn comparison_flag(cells: Seq<u16>) -> u16 {
    cells[COMPARISON_ADDRESS as int]
}

/// The content of the target cell: the cell whose address the address
/// register holds.
pub open spec fn target(cells: Seq<u16>) -> u16 {
    cells[address_register(cells) as int]
}

/// The cells after `address` is stored in the address register.
pub open spec fn store_address(cells: Seq<u16>, address: u16) -> Seq<u16> {
    cells.update(ADDRESS_ADDRESS as int, address)
}

/// The cells after `content` is stored in the target cell.
pub open spec fn store_target(cells: Seq<u16>, content: u16) -> Seq<u16> {
    cells.update(address_register(cells) as int, content)
}

/// The cells after the comparison flag is set to 1, if `holds`, or to 0.
pub open spec fn store_flag(cells: Seq<u16>, holds: bool) -> Seq<u16> {
    cells.update(
        COMPARISON_ADDRESS as int,
        if holds {
            1u16
        } else {
            0u16
        },
    )
}

/// The memory bank. Every 16-bit address names a cell.
#[derive(Debug)]
pub struct Memory {
    pub cells: [u16; 65536],
}

impl View for Memory {
    type V = Seq<u16>;

    open spec fn view(&self) -> Seq<u16> {
        self.cells@
    }
}

impl Clone for Memory {
    fn clone(&self) -> (copy: Self)
        ensures
            copy@ == self@,
    {
        Memory { cells: self.cells }
    }
}

impl Memory {
    /// A memory bank with every cell zero.
    pub fn new() -> (memory: Memory)
        ensures
            memory@ == zeroed(),
    {
        let memory = Memory { cells: [0u16; 65536] };
        memory
    }

    /// The content of the cell at `address`.
    pub fn get(&self, address: u16) -> (content: u16)
        ensures
            content == self@[address as int],
    {
        self.cells[address as usize]
    }

    /// Stores `content` in the cell at `address`.
    pub fn set(&mut self, address: u16, content: u16)
        ensures
            final(self)@ == old(self)@.update(address as int, content),
    {
        self.cells[address as usize] = content;
    }

    /// The address of the target cell.
    pub fn address_register(&self) -> (address: u16)
        ensures
            address == address_register(self@),
    {
        self.cells[ADDRESS_ADDRESS]
    }

    /// The content of the comparison flag.
    pub fn comparison_flag(&self) -> (flag: u16)
        ensures
            flag == comparison_flag(self@),
    {
        self.cells[COMPARISON_ADDRESS]
    }

    /// The content of the target cell.
    pub fn target(&self) -> (content: u16)
        ensures
            content == target(self@),
    {
        self.cells[self.cells[ADDRESS_ADDRESS] as usize]
    }

    /// Makes the cell at `address` the target cell.
    pub fn set_address_register(&mut self, address: u16)
        ensures
            final(self)@ == store_address(old(self)@, address),
    {
        self.cells[ADDRESS_ADDRESS] = address;
    }

    /// Stores `content` in the target cell.
    pub fn set_target(&mut self, content: u16)
        ensures
            final(self)@ == store_target(old(self)@, content),
    {
        let address = self.cells[ADDRESS_ADDRESS];
        self.cells[address as usize] = content;
    }

    /// Sets the comparison flag to 1, if `holds`, or to 0.
    pub fn set_comparison_flag(&mut self, holds: bool)
        ensures
            final(self)@ == store_flag(old(self)@, holds),
    {
        self.cells[COMPARISON_ADDRESS] = if holds {
            1
        } else {
            0
        };
    }
}

} // verus!
