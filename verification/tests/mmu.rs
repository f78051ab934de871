use gameboy_emu::mmu::MMU;
use gameboy_emu::sm83cpu::StateSM83;

#[test]
fn new_mmu_has_rom_type_zero() {
    let m = MMU::new();
    assert_eq!(m.rom_type(), 0);
}

#[test]
fn loaded_cart_reaches_memory() {
    let mut m = MMU::new();
    let image: Vec<u8> = (0..0x300u32).map(|i| (i * 7 % 256) as u8).collect();
    m.load_cart(&image);
    let mut s = StateSM83::new();
    s.memory[0x7fff] = 0x11;
    s.memory[0x8000] = 0x22;
    m.cart_to_mem(&mut s);
    for i in 0..image.len() {
        assert_eq!(s.memory[i], image[i]);
    }
    assert_eq!(s.memory[0x300], 0);
    assert_eq!(s.memory[0x7fff], 0);
    assert_eq!(s.memory[0x8000], 0x22);
}

#[test]
fn full_size_cart_loads() {
    let mut m = MMU::new();
    let image = vec![0x5au8; 0x8000];
    m.load_cart(&image);
    let mut s = StateSM83::new();
    m.cart_to_mem(&mut s);
    assert_eq!(s.memory[0x7fff], 0x5a);
    assert_eq!(s.memory[0x8000], 0x00);
}

#[test]
fn boot_rom_reaches_memory() {
    let mut m = MMU::new();
    let boot: Vec<u8> = (0..0x100u32).map(|i| (0xff - i) as u8).collect();
    m.load_boot_rom(&boot);
    let mut s = StateSM83::new();
    s.memory[0x100] = 0x33;
    m.boot_rom_to_mem(&mut s);
    assert_eq!(s.memory[0x00], 0xff);
    assert_eq!(s.memory[0xff], 0x00);
    assert_eq!(s.memory[0x100], 0x33);
}

#[test]
fn shorter_boot_rom_keeps_the_rest() {
    let mut m = MMU::new();
    m.load_boot_rom(&vec![1u8; 0x100]);
    m.load_boot_rom(&vec![2u8; 0x10]);
    let mut s = StateSM83::new();
    m.boot_rom_to_mem(&mut s);
    assert_eq!(s.memory[0x0f], 2);
    assert_eq!(s.memory[0x10], 1);
}

#[test]
fn header_matches_memory() {
    let mut m = MMU::new();
    let mut image = vec![0u8; 0x150];
    image[0x147] = 0x13;
    m.load_cart(&image);
    m.read_header();
    assert_eq!(m.rom_type(), 0x13);
    let mut s = StateSM83::new();
    m.cart_to_mem(&mut s);
    assert_eq!(s.memory[0x147], m.rom_type());
}

#[test]
fn boot_rom_overwrite_happens_once() {
    let mut m = MMU::new();
    let image: Vec<u8> = (0..0x180u32).map(|i| (i % 200) as u8 + 1).collect();
    m.load_cart(&image);
    let mut s = StateSM83::new();
    m.overwrite_boot_rom(&mut s);
    for i in 0..0x100 {
        assert_eq!(s.memory[i], image[i]);
    }
    assert_eq!(s.memory[0x100], 0);
    s.memory[0x10] = 0;
    m.overwrite_boot_rom(&mut s);
    assert_eq!(s.memory[0x10], 0);
}
