use raph::kernel::boot::{BootInfo, FramebufferInfo, MemoryMapInfo, FILL_COLOR};
use raph::kernel::descriptors::{GdtEntry, IdtEntry, KERNEL_CS, KERNEL_DS};
use raph::kernel::scancode::ScancodeBuffer;
use raph::kernel::tty::keyboard::{Key, KeyEvent};
use raph::kernel::tty::{KeyAction, Tty};

fn letter(c: u8) -> Key {
    Key::Printable { lower: c, upper: c.to_ascii_uppercase() }
}

#[test]
fn tty_types_lower_case_by_default() {
    let mut tty: Tty<u8> = Tty::new(None);
    assert_eq!(tty.handle_input(KeyEvent::Pressed(letter(b'a'))), Some('a'));
    assert_eq!(tty.handle_input(KeyEvent::Released(letter(b'a'))), None);
}

#[test]
fn tty_shift_types_upper_case_while_held() {
    let mut tty: Tty<u8> = Tty::new(None);
    assert_eq!(tty.handle_input(KeyEvent::Pressed(Key::LeftShift)), None);
    assert_eq!(tty.handle_input(KeyEvent::Pressed(letter(b'q'))), Some('Q'));
    assert_eq!(tty.handle_input(KeyEvent::Released(Key::LeftShift)), None);
    assert_eq!(tty.handle_input(KeyEvent::Pressed(letter(b'q'))), Some('q'));
    assert_eq!(tty.handle_input(KeyEvent::Pressed(Key::RightShift)), None);
    assert_eq!(tty.handle_input(KeyEvent::Pressed(letter(b'w'))), Some('W'));
}

#[test]
fn tty_caps_lock_toggles_and_shift_undoes_it() {
    let mut tty: Tty<u8> = Tty::new(None);
    tty.handle_input(KeyEvent::Pressed(Key::CapsLock));
    assert_eq!(tty.handle_input(KeyEvent::Pressed(letter(b'x'))), Some('X'));
    tty.handle_input(KeyEvent::Pressed(Key::LeftShift));
    assert_eq!(tty.handle_input(KeyEvent::Pressed(letter(b'x'))), Some('x'));
    tty.handle_input(KeyEvent::Released(Key::LeftShift));
    // releasing caps lock changes nothing; pressing it again turns it off
    tty.handle_input(KeyEvent::Released(Key::CapsLock));
    assert_eq!(tty.handle_input(KeyEvent::Pressed(letter(b'x'))), Some('X'));
    tty.handle_input(KeyEvent::Pressed(Key::CapsLock));
    assert_eq!(tty.handle_input(KeyEvent::Pressed(letter(b'x'))), Some('x'));
}

#[test]
fn tty_ctrl_and_alt_do_not_change_case() {
    let mut tty: Tty<u8> = Tty::new(None);
    tty.handle_input(KeyEvent::Pressed(Key::LeftCtrl));
    tty.handle_input(KeyEvent::Pressed(Key::RightAlt));
    assert_eq!(tty.handle_input(KeyEvent::Pressed(letter(b'c'))), Some('c'));
}

#[test]
fn tty_other_keys_type_nothing() {
    let mut tty: Tty<u8> = Tty::new(None);
    for k in [Key::Enter, Key::Backspace, Key::Tab, Key::Up, Key::Down, Key::Left, Key::Right, Key::Other] {
        assert_eq!(tty.handle_input(KeyEvent::Pressed(k)), None);
    }
    // a digit key has the same code in both cases
    let one = Key::Printable { lower: b'1', upper: b'!' };
    assert_eq!(tty.handle_input(KeyEvent::Pressed(one)), Some('1'));
    tty.handle_input(KeyEvent::Pressed(Key::LeftShift));
    assert_eq!(tty.handle_input(KeyEvent::Pressed(one)), Some('!'));
}

#[test]
fn tty_perform_action_writes_only_typed_characters() {
    let tty: Tty<u8> = Tty::new(None);
    assert_eq!(tty.perform_action(KeyAction::Type('z')), Some('z'));
    for a in [
        KeyAction::Backspace,
        KeyAction::Enter,
        KeyAction::Tab,
        KeyAction::ArrowUp,
        KeyAction::ArrowDown,
        KeyAction::ArrowLeft,
        KeyAction::ArrowRight,
        KeyAction::Ignore,
    ] {
        assert_eq!(tty.perform_action(a), None);
    }
}

#[test]
fn tty_command_handler() {
    let mut tty: Tty<u32> = Tty::new(Some(1));
    assert_eq!(tty.command_handler, Some(1));
    tty.set_command_handler(Some(2));
    assert_eq!(tty.command_handler, Some(2));
    tty.set_command_handler(None);
    assert_eq!(tty.command_handler, None);
}

#[test]
fn key_to_ascii() {
    assert_eq!(letter(b'k').to_ascii(false), Some(b'k'));
    assert_eq!(letter(b'k').to_ascii(true), Some(b'K'));
    assert_eq!(Key::Enter.to_ascii(true), None);
}

#[test]
fn scancodes_come_out_in_order() {
    let mut b = ScancodeBuffer::new();
    assert_eq!(b.pop_scancode(), None);
    b.push_scancode(0x1e);
    b.push_scancode(0x30);
    b.push_scancode(0x9e);
    assert_eq!(b.pop_scancode(), Some(0x1e));
    assert_eq!(b.pop_scancode(), Some(0x30));
    b.push_scancode(0x2e);
    assert_eq!(b.pop_scancode(), Some(0x9e));
    assert_eq!(b.pop_scancode(), Some(0x2e));
    assert_eq!(b.pop_scancode(), None);
}

#[test]
fn scancode_ring_wraps_around() {
    let mut b = ScancodeBuffer::new();
    for round in 0..3u32 {
        for i in 0..200u32 {
            b.push_scancode((i + round) as u8);
        }
        for i in 0..200u32 {
            assert_eq!(b.pop_scancode(), Some((i + round) as u8));
        }
        assert_eq!(b.pop_scancode(), None);
    }
}

#[test]
fn scancode_ring_holds_256() {
    let mut b = ScancodeBuffer::new();
    for i in 0..256u32 {
        b.push_scancode(i as u8);
    }
    for i in 0..256u32 {
        assert_eq!(b.pop_scancode(), Some(i as u8));
    }
    assert_eq!(b.pop_scancode(), None);
}

#[test]
fn scancode_ring_overwrites_the_oldest_beyond_256() {
    let mut b = ScancodeBuffer::new();
    for _ in 0..256u32 {
        b.push_scancode(10);
    }
    b.push_scancode(99);
    // the 257th scancode went into the slot of the first, which is read first
    assert_eq!(b.pop_scancode(), Some(99));
    for _ in 1..256u32 {
        assert_eq!(b.pop_scancode(), Some(10));
    }
    // the read position then comes round to that slot once more
    assert_eq!(b.pop_scancode(), Some(99));
    assert_eq!(b.pop_scancode(), None);
}

#[test]
fn gdt_entries() {
    assert_eq!(GdtEntry::null(), GdtEntry(0));
    assert_eq!(GdtEntry::kernel_code().0, 0x00AF9A000000FFFF);
    assert_eq!(GdtEntry::kernel_data().0, 0x00CF92000000FFFF);
    assert_eq!(KERNEL_CS, 0x08);
    assert_eq!(KERNEL_DS, 0x10);
}

#[test]
fn idt_entry_splits_the_offset() {
    let e = IdtEntry::new(0x1234_5678_9abc_def0, KERNEL_CS, 0, 0x8e);
    assert_eq!(e.offset_low, 0xdef0);
    assert_eq!(e.offset_mid, 0x9abc);
    assert_eq!(e.offset_high, 0x1234_5678);
    assert_eq!(e.selector, 0x08);
    assert_eq!(e.ist, 0);
    assert_eq!(e.type_attrs, 0x8e);
    assert_eq!(e.zero, 0);
    let back = (e.offset_high as u64) << 32 | (e.offset_mid as u64) << 16 | e.offset_low as u64;
    assert_eq!(back, 0x1234_5678_9abc_def0);
    let m = IdtEntry::missing();
    assert_eq!(m, IdtEntry { offset_low: 0, selector: 0, ist: 0, type_attrs: 0, offset_mid: 0, offset_high: 0, zero: 0 });
}

#[test]
fn framebuffer_pixel_count() {
    let fb = FramebufferInfo { base: 0x8000_0000, size: 4 * 1024 * 768, width: 1000, height: 768, stride: 1024, pixel_format: 1 };
    assert_eq!(fb.pixel_count(), 1024 * 768);
    let info = BootInfo { memory_map: MemoryMapInfo { entries: 0x1000, entry_count: 3, entry_size: 48 }, framebuffer: fb };
    assert_eq!(info.framebuffer.pixel_count(), 786432);
    let empty = FramebufferInfo { height: 0, ..fb };
    assert_eq!(empty.pixel_count(), 0);
    assert_eq!(FILL_COLOR, 0x0000FF00);
}

#[test]
fn scancode_ring_gives_back_up_to_256_in_order() {
    for n in [0u32, 1, 2, 255, 256] {
        let mut b = ScancodeBuffer::new();
        for i in 0..n {
            b.push_scancode((i * 7 % 256) as u8);
        }
        for i in 0..n {
            assert_eq!(b.pop_scancode(), Some((i * 7 % 256) as u8));
        }
        assert_eq!(b.pop_scancode(), None);
    }
}
