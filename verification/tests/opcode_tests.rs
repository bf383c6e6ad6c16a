use chip8::cpu::{Cpu, CpuError, RunState};
use chip8::display::Display;
use chip8::keyboard::Keyboard;

fn rig() -> (Cpu, Display, Keyboard) {
    (Cpu::new(), Display::new(1), Keyboard::new())
}

fn exec(cpu: &mut Cpu, d: &mut Display, k: &Keyboard, op: u16) -> Result<(), CpuError> {
    cpu.execute_instruction(op, 0, d, k)
}

#[test]
fn wrapping_add_immediate() {
    let (mut cpu, mut d, k) = rig();
    let _ = exec(&mut cpu, &mut d, &k, 0x63FA); // V3 = 250
    let _ = exec(&mut cpu, &mut d, &k, 0x730A); // V3 += 10, wrapping
    assert_eq!(cpu.register(3), 4);
    assert_eq!(cpu.register(0xF), 0); // flag untouched
}

#[test]
fn add_with_carry() {
    let (mut cpu, mut d, k) = rig();
    let _ = exec(&mut cpu, &mut d, &k, 0x60C8); // V0 = 200
    let _ = exec(&mut cpu, &mut d, &k, 0x6164); // V1 = 100
    let _ = exec(&mut cpu, &mut d, &k, 0x8014); // V0 += V1
    assert_eq!(cpu.register(0), 44);
    assert_eq!(cpu.register(0xF), 1);
    let _ = exec(&mut cpu, &mut d, &k, 0x600A); // V0 = 10
    let _ = exec(&mut cpu, &mut d, &k, 0x6114); // V1 = 20
    let _ = exec(&mut cpu, &mut d, &k, 0x8014); // V0 += V1
    assert_eq!(cpu.register(0), 30);
    assert_eq!(cpu.register(0xF), 0);
}

#[test]
fn sub_with_not_borrow() {
    let (mut cpu, mut d, k) = rig();
    let _ = exec(&mut cpu, &mut d, &k, 0x600A); // V0 = 10
    let _ = exec(&mut cpu, &mut d, &k, 0x6114); // V1 = 20
    let _ = exec(&mut cpu, &mut d, &k, 0x8015); // V0 -= V1
    assert_eq!(cpu.register(0), 246);
    assert_eq!(cpu.register(0xF), 0);
    let _ = exec(&mut cpu, &mut d, &k, 0x6014); // V0 = 20
    let _ = exec(&mut cpu, &mut d, &k, 0x610A); // V1 = 10
    let _ = exec(&mut cpu, &mut d, &k, 0x8015); // V0 -= V1
    assert_eq!(cpu.register(0), 10);
    assert_eq!(cpu.register(0xF), 1);
}

#[test]
fn alu_assign_or_and_xor() {
    let (mut cpu, mut d, k) = rig();
    let _ = exec(&mut cpu, &mut d, &k, 0x600C); // V0 = 0b1100
    let _ = exec(&mut cpu, &mut d, &k, 0x610A); // V1 = 0b1010
    let _ = exec(&mut cpu, &mut d, &k, 0x8201); // V2 = V2 | V0 ... V2 starts 0
    let _ = exec(&mut cpu, &mut d, &k, 0x8010); // V0 = V1
    assert_eq!(cpu.register(0), 0x0A);
    let _ = exec(&mut cpu, &mut d, &k, 0x600C);
    let _ = exec(&mut cpu, &mut d, &k, 0x8011); // V0 |= V1
    assert_eq!(cpu.register(0), 0x0E);
    let _ = exec(&mut cpu, &mut d, &k, 0x600C);
    let _ = exec(&mut cpu, &mut d, &k, 0x8012); // V0 &= V1
    assert_eq!(cpu.register(0), 0x08);
    let _ = exec(&mut cpu, &mut d, &k, 0x600C);
    let _ = exec(&mut cpu, &mut d, &k, 0x8013); // V0 ^= V1
    assert_eq!(cpu.register(0), 0x06);
}

#[test]
fn alu_shifts() {
    let (mut cpu, mut d, k) = rig();
    let _ = exec(&mut cpu, &mut d, &k, 0x6005); // V0 = 5
    let _ = exec(&mut cpu, &mut d, &k, 0x8006); // V0 >>= 1
    assert_eq!(cpu.register(0), 2);
    assert_eq!(cpu.register(0xF), 1);
    let _ = exec(&mut cpu, &mut d, &k, 0x6081); // V0 = 0x81
    let _ = exec(&mut cpu, &mut d, &k, 0x800E); // V0 <<= 1
    assert_eq!(cpu.register(0), 0x02);
    assert_eq!(cpu.register(0xF), 1);
    let _ = exec(&mut cpu, &mut d, &k, 0x6022); // V0 = 0x22
    let _ = exec(&mut cpu, &mut d, &k, 0x800E); // V0 <<= 1
    assert_eq!(cpu.register(0), 0x44);
    assert_eq!(cpu.register(0xF), 0);
}

#[test]
fn alu_reverse_sub() {
    let (mut cpu, mut d, k) = rig();
    let _ = exec(&mut cpu, &mut d, &k, 0x6014); // V0 = 20
    let _ = exec(&mut cpu, &mut d, &k, 0x610A); // V1 = 10
    let _ = exec(&mut cpu, &mut d, &k, 0x8017); // V0 = V1 - V0
    assert_eq!(cpu.register(0), 246);
    assert_eq!(cpu.register(0xF), 0);
    let _ = exec(&mut cpu, &mut d, &k, 0x600A); // V0 = 10
    let _ = exec(&mut cpu, &mut d, &k, 0x611E); // V1 = 30
    let _ = exec(&mut cpu, &mut d, &k, 0x8017); // V0 = V1 - V0
    assert_eq!(cpu.register(0), 20);
    assert_eq!(cpu.register(0xF), 1);
}

#[test]
fn skip_opcodes() {
    let (mut cpu, mut d, k) = rig();
    let pc0 = cpu.pc();
    let _ = exec(&mut cpu, &mut d, &k, 0x3000); // V0 == 0: skip
    assert_eq!(cpu.pc(), pc0 + 4);
    let _ = exec(&mut cpu, &mut d, &k, 0x3001); // V0 != 1: no skip
    assert_eq!(cpu.pc(), pc0 + 6);
    let _ = exec(&mut cpu, &mut d, &k, 0x4001); // V0 != 1: skip
    assert_eq!(cpu.pc(), pc0 + 10);
    let _ = exec(&mut cpu, &mut d, &k, 0x5010); // V0 == V1: skip
    assert_eq!(cpu.pc(), pc0 + 14);
    let _ = exec(&mut cpu, &mut d, &k, 0x9010); // V0 == V1: no skip
    assert_eq!(cpu.pc(), pc0 + 16);
    let _ = exec(&mut cpu, &mut d, &k, 0x6107); // V1 = 7
    let _ = exec(&mut cpu, &mut d, &k, 0x9010); // V0 != V1: skip
    assert_eq!(cpu.pc(), pc0 + 22);
}

#[test]
fn skip_on_key_state() {
    let (mut cpu, mut d, mut k) = rig();
    k.set_pressed(4, true);
    let _ = exec(&mut cpu, &mut d, &k, 0x6004); // V0 = 4
    let pc0 = cpu.pc();
    let _ = exec(&mut cpu, &mut d, &k, 0xE09E); // key 4 pressed: skip
    assert_eq!(cpu.pc(), pc0 + 4);
    let _ = exec(&mut cpu, &mut d, &k, 0xE0A1); // key 4 pressed: no skip
    assert_eq!(cpu.pc(), pc0 + 6);
    k.set_pressed(4, false);
    let _ = exec(&mut cpu, &mut d, &k, 0xE0A1); // key 4 released: skip
    assert_eq!(cpu.pc(), pc0 + 10);
    let _ = exec(&mut cpu, &mut d, &k, 0xE09E); // key 4 released: no skip
    assert_eq!(cpu.pc(), pc0 + 12);
}

#[test]
fn jumps_and_index() {
    let (mut cpu, mut d, k) = rig();
    let _ = exec(&mut cpu, &mut d, &k, 0x1ABC);
    assert_eq!(cpu.pc(), 0xABC);
    let _ = exec(&mut cpu, &mut d, &k, 0xA123);
    assert_eq!(cpu.address(), 0x123);
    let _ = exec(&mut cpu, &mut d, &k, 0x6005); // V0 = 5
    let _ = exec(&mut cpu, &mut d, &k, 0xB100); // I = 0x100 + V0
    assert_eq!(cpu.address(), 0x105);
    let _ = exec(&mut cpu, &mut d, &k, 0xF01E); // I += V0
    assert_eq!(cpu.address(), 0x10A);
}

#[test]
fn random_opcode_masks_the_byte() {
    let (mut cpu, mut d, k) = rig();
    let _ = cpu.execute_instruction(0xC3AA, 0xF0, &mut d, &k);
    assert_eq!(cpu.register(3), 0xA0);
    let _ = cpu.execute_instruction(0xC500, 0x37, &mut d, &k);
    assert_eq!(cpu.register(5), 0);
}

#[test]
fn timer_opcodes() {
    let (mut cpu, mut d, k) = rig();
    let _ = exec(&mut cpu, &mut d, &k, 0x602A); // V0 = 42
    let _ = exec(&mut cpu, &mut d, &k, 0xF015); // delay = V0
    let _ = exec(&mut cpu, &mut d, &k, 0xF018); // sound = V0
    assert_eq!(cpu.delay_timer(), 42);
    assert_eq!(cpu.sound_timer(), 42);
    let _ = exec(&mut cpu, &mut d, &k, 0xF107); // V1 = delay
    assert_eq!(cpu.register(1), 42);
    assert!(cpu.sound_active());
}

#[test]
fn font_address_opcode() {
    let (mut cpu, mut d, k) = rig();
    let _ = exec(&mut cpu, &mut d, &k, 0x6002); // V0 = 2
    let _ = exec(&mut cpu, &mut d, &k, 0xF029); // I = V0 * 5
    assert_eq!(cpu.address(), 10);
    // glyph "2" as constructed
    assert_eq!(cpu.memory_byte(10), 0xF0);
    assert_eq!(cpu.memory_byte(11), 0x10);
    assert_eq!(cpu.memory_byte(12), 0xF0);
    assert_eq!(cpu.memory_byte(13), 0x80);
    assert_eq!(cpu.memory_byte(14), 0xF0);
}

#[test]
fn bcd_opcode() {
    let (mut cpu, mut d, k) = rig();
    let _ = exec(&mut cpu, &mut d, &k, 0x609F); // V0 = 159
    let _ = exec(&mut cpu, &mut d, &k, 0xA300); // I = 0x300
    let _ = exec(&mut cpu, &mut d, &k, 0xF033);
    assert_eq!(cpu.memory_byte(0x300), 1);
    assert_eq!(cpu.memory_byte(0x301), 5);
    assert_eq!(cpu.memory_byte(0x302), 9);
}

#[test]
fn store_then_load_round_trips_registers() {
    let (mut cpu, mut d, k) = rig();
    let _ = exec(&mut cpu, &mut d, &k, 0x6011); // V0 = 0x11
    let _ = exec(&mut cpu, &mut d, &k, 0x6122); // V1 = 0x22
    let _ = exec(&mut cpu, &mut d, &k, 0x6233); // V2 = 0x33
    let _ = exec(&mut cpu, &mut d, &k, 0x6344); // V3 = 0x44
    let _ = exec(&mut cpu, &mut d, &k, 0xA300); // I = 0x300
    let _ = exec(&mut cpu, &mut d, &k, 0xF355); // store V0..=V3
    // clobber the registers, then load back
    let _ = exec(&mut cpu, &mut d, &k, 0x60FF);
    let _ = exec(&mut cpu, &mut d, &k, 0x61FF);
    let _ = exec(&mut cpu, &mut d, &k, 0x62FF);
    let _ = exec(&mut cpu, &mut d, &k, 0x63FF);
    let _ = exec(&mut cpu, &mut d, &k, 0xF365); // load V0..=V3
    assert_eq!(cpu.register(0), 0x11);
    assert_eq!(cpu.register(1), 0x22);
    assert_eq!(cpu.register(2), 0x33);
    assert_eq!(cpu.register(3), 0x44);
    assert_eq!(cpu.address(), 0x300); // index register untouched
}

#[test]
fn unknown_patterns_are_noops() {
    let (mut cpu, mut d, k) = rig();
    let _ = exec(&mut cpu, &mut d, &k, 0x6307); // V3 = 7
    let pc0 = cpu.pc();
    for op in [0x0123u16, 0x5011, 0x8018, 0x9013, 0xE0FF, 0xF0FF] {
        let r = exec(&mut cpu, &mut d, &k, op);
        assert!(r.is_ok());
    }
    assert_eq!(cpu.pc(), pc0 + 12); // six plain advances, no skips
    assert_eq!(cpu.register(3), 7);
    assert_eq!(cpu.register(0xF), 0);
    assert!(matches!(cpu.run_state(), RunState::NotStarted));
}

#[test]
fn call_and_return() {
    let (mut cpu, mut d, k) = rig();
    let _ = exec(&mut cpu, &mut d, &k, 0x2300); // call 0x300
    assert_eq!(cpu.pc(), 0x300);
    assert_eq!(cpu.stack_depth(), 1);
    let _ = exec(&mut cpu, &mut d, &k, 0x00EE); // return
    assert_eq!(cpu.pc(), 0x202);
    assert_eq!(cpu.stack_depth(), 0);
}

#[test]
fn return_on_empty_stack_is_noop() {
    let (mut cpu, mut d, k) = rig();
    let pc0 = cpu.pc();
    let r = exec(&mut cpu, &mut d, &k, 0x00EE);
    assert!(r.is_ok());
    assert_eq!(cpu.pc(), pc0 + 2);
    assert_eq!(cpu.stack_depth(), 0);
}

#[test]
fn call_past_stack_limit_faults() {
    let (mut cpu, mut d, k) = rig();
    for _ in 0..16 {
        assert!(exec(&mut cpu, &mut d, &k, 0x2208).is_ok());
    }
    assert_eq!(cpu.stack_depth(), 16);
    let r = exec(&mut cpu, &mut d, &k, 0x2208);
    assert_eq!(r, Err(CpuError::StackOverflow));
    assert!(matches!(cpu.run_state(), RunState::Halted));
}

#[test]
fn draw_operand_past_memory_faults() {
    let (mut cpu, mut d, k) = rig();
    let _ = exec(&mut cpu, &mut d, &k, 0xAFFF); // I = 0xFFF
    let r = exec(&mut cpu, &mut d, &k, 0xD012); // two sprite rows from 0xFFF
    assert_eq!(r, Err(CpuError::OutOfBoundsMemoryAccess));
    assert!(matches!(cpu.run_state(), RunState::Halted));
}
