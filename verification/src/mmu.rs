use vstd::prelude::*;

use crate::sm83cpu::{CpuView, StateSM83};

verus! {

/// The memory controller: the boot ROM and the cartridge ROM, and whether
/// the boot ROM has been mapped out of the address space yet.
pub struct MMU {
    rom_type: u8,
    boot_finished: bool,
    boot_rom: [u8; 0x100],
    cart: [u8; 0x8000],
}

/// The mathematical picture of an `MMU`.
#[verifier::ext_equal]
pub struct MmuView {
    pub rom_type: u8,
    pub boot_finished: bool,
    pub boot_rom: Seq<u8>,
    pub cart: Seq<u8>,
}

impl View for MMU {
    type V = MmuView;

    closed spec fn view(&self) -> MmuView {
        MmuView {
            rom_type: self.rom_type,
            boot_finished: self.boot_finished,
            boot_rom: self.boot_rom@,
            cart: self.cart@,
        }
    }
}

/// `image` placed at the start of `mem`, the rest of `mem` kept.
pub open spec fn overlay(mem: Seq<u8>, image: Seq<u8>) -> Seq<u8> {
    image + mem.subrange(image.len() as int, mem.len() as int)
}

/// The core's state and the controller after the boot ROM has been replaced
/// by the first 0x100 bytes of the cartridge, which happens once.
pub open spec fn boot_rom_overwritten(s: CpuView, m: MmuView) -> (CpuView, MmuView) {
    if m.boot_finished {
        (s, m)
    } else {
        (
            CpuView { memory: overlay(s.memory, m.cart.subrange(0, 0x100)), ..s },
            MmuView { boot_finished: true, ..m },
        )
    }
}

/// The controller after `image` was loaded at the start of the boot ROM.
pub open spec fn boot_rom_loaded(m: MmuView, image: Seq<u8>) -> MmuView {
    MmuView { boot_rom: overlay(m.boot_rom, image), ..m }
}

/// The controller after `image` was loaded at the start of the cartridge
/// ROM.
pub open spec fn cart_loaded(m: MmuView, image: Seq<u8>) -> MmuView {
    MmuView { cart: overlay(m.cart, image), ..m }
}

/// The core's state after the cartridge ROM was copied to the start of
/// memory.
pub open spec fn cart_copied(s: CpuView, m: MmuView) -> CpuView {
    CpuView { memory: overlay(s.memory, m.cart), ..s }
}

/// The core's state after the boot ROM was copied to the start of memory.
pub open spec fn boot_rom_copied(s: CpuView, m: MmuView) -> CpuView {
    CpuView { memory: overlay(s.memory, m.boot_rom), ..s }
}

/// The controller after the cartridge header was read: the ROM type is the
/// byte at 0x147 of the cartridge.
pub open spec fn header_read(m: MmuView) -> MmuView {
    MmuView { rom_type: m.cart[0x147], ..m }
}

impl MMU {
    /// The boot ROM holds 0x100 bytes and the cartridge ROM 0x8000.
    pub proof fn lemma_sizes(&self)
        ensures
            self@.boot_rom.len() == 0x100,
            self@.cart.len() == 0x8000,
    {
    }

    /// A controller with both ROM images zero, ROM type 0 and the boot ROM
    /// still mapped in.
    pub fn new() -> (m: MMU)
        ensures
            m@.rom_type == 0,
            !m@.boot_finished,
            m@.boot_rom == Seq::new(0x100, |i: int| 0u8),
            m@.cart == Seq::new(0x8000, |i: int| 0u8),
    {
        let m = MMU { rom_type: 0, boot_finished: false, boot_rom: [0; 0x100], cart: [0; 0x8000] };
        assert(m@.boot_rom =~= Seq::new(0x100, |i: int| 0u8));
        assert(m@.cart =~= Seq::new(0x8000, |i: int| 0u8));
        m
    }

    /// Copies the bytes of a boot ROM image to the start of the boot ROM.
    pub fn load_boot_rom(&mut self, buffer: &Vec<u8>)
        requires
            buffer.len() <= 0x100,
        ensures
            final(self)@ == boot_rom_loaded(old(self)@, buffer@),
    {
        let n = buffer.len();
        for i in 0..n
            invariant
                n == buffer.len(),
                n <= 0x100,
                self@.rom_type == old(self)@.rom_type,
                self@.boot_finished == old(self)@.boot_finished,
                self@.cart == old(self)@.cart,
                self@.boot_rom.len() == 0x100,
                forall|j: int| 0 <= j < i ==> self@.boot_rom[j] == buffer@[j],
                forall|j: int| i <= j < 0x100 ==> self@.boot_rom[j] == old(self)@.boot_rom[j],
        {
            self.boot_rom[i] = buffer[i];
        }
        assert(self@.boot_rom =~= overlay(old(self)@.boot_rom, buffer@));
    }

    /// Copies the bytes of a cartridge image to the start of the cartridge
    /// ROM.
    pub fn load_cart(&mut self, buffer: &Vec<u8>)
        requires
            buffer.len() <= 0x8000,
        ensures
            final(self)@ == cart_loaded(old(self)@, buffer@),
    {
        let n = buffer.len();
        for i in 0..n
            invariant
                n == buffer.len(),
                n <= 0x8000,
                self@.rom_type == old(self)@.rom_type,
                self@.boot_finished == old(self)@.boot_finished,
                self@.boot_rom == old(self)@.boot_rom,
                self@.cart.len() == 0x8000,
                forall|j: int| 0 <= j < i ==> self@.cart[j] == buffer@[j],
                forall|j: int| i <= j < 0x8000 ==> self@.cart[j] == old(self)@.cart[j],
        {
            self.cart[i] = buffer[i];
        }
        assert(self@.cart =~= overlay(old(self)@.cart, buffer@));
    }

    /// Unless it was done already, replaces the boot ROM in the core's
    /// memory by the first 0x100 bytes of the cartridge, and records that
    /// booting is finished.
    pub fn overwrite_boot_rom(&mut self, state: &mut StateSM83)
        ensures
            (final(state)@, final(self)@) == boot_rom_overwritten(old(state)@, old(self)@),
    {
        if self.boot_finished {
            return ;
        }
        for i in 0..0x100usize
            invariant
                self@ == old(self)@,
                !self@.boot_finished,
                state@ == (CpuView { memory: state@.memory, ..old(state)@ }),
                state@.memory.len() == 0x10000,
                forall|j: int| 0 <= j < i ==> state@.memory[j] == self@.cart[j],
                forall|j: int| i <= j < 0x10000 ==> state@.memory[j] == old(state)@.memory[j],
        {
            state.memory[i] = self.cart[i];
        }
        self.boot_finished = true;
        assert(state@.memory =~= overlay(old(state)@.memory, old(self)@.cart.subrange(0, 0x100)));
    }

    /// Copies the whole cartridge ROM to the start of the core's memory.
    pub fn cart_to_mem(&self, state: &mut StateSM83)
        ensures
            final(state)@ == cart_copied(old(state)@, self@),
    {
        for i in 0..0x8000usize
            invariant
                state@ == (CpuView { memory: state@.memory, ..old(state)@ }),
                state@.memory.len() == 0x10000,
                self@.cart.len() == 0x8000,
                forall|j: int| 0 <= j < i ==> state@.memory[j] == self@.cart[j],
                forall|j: int| i <= j < 0x10000 ==> state@.memory[j] == old(state)@.memory[j],
        {
            state.memory[i] = self.cart[i];
        }
        assert(state@.memory =~= overlay(old(state)@.memory, self@.cart));
    }

    /// Copies the boot ROM to the start of the core's memory.
    pub fn boot_rom_to_mem(&self, state: &mut StateSM83)
        ensures
            final(state)@ == boot_rom_copied(old(state)@, self@),
    {
        for i in 0..0x100usize
            invariant
                state@ == (CpuView { memory: state@.memory, ..old(state)@ }),
                state@.memory.len() == 0x10000,
                self@.boot_rom.len() == 0x100,
                forall|j: int| 0 <= j < i ==> state@.memory[j] == self@.boot_rom[j],
                forall|j: int| i <= j < 0x10000 ==> state@.memory[j] == old(state)@.memory[j],
        {
            state.memory[i] = self.boot_rom[i];
        }
        assert(state@.memory =~= overlay(old(state)@.memory, self@.boot_rom));
    }

    /// Records the cartridge type byte of the cartridge header (address
    /// 0x147).
    pub fn read_header(&mut self)
        ensures
            final(self)@ == header_read(old(self)@),
    {
        self.rom_type = self.cart[0x147];
    }

    /// The cartridge type recorded by `read_header`.
    pub fn rom_type(&self) -> (t: u8)
        ensures
            t == self@.rom_type,
    {
        self.rom_type
    }
}

} // verus!
