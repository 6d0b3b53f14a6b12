use chip8_core::cpu::{Fault, CPU};

#[test]
fn load_reproduces_bytes() {
    let mut cpu = CPU::new();
    let program = [0x80u8, 0x14, 0x80, 0x24];
    cpu.load(&program);
    for i in 0..program.len() {
        assert_eq!(cpu.memory[i], program[i]);
    }
    for i in program.len()..4096 {
        assert_eq!(cpu.memory[i], 0);
    }
}

#[test]
fn clear_screen_turns_every_pixel_off() {
    let mut cpu = CPU::new();
    cpu.display[0][0] = true;
    cpu.display[17][42] = true;
    cpu.display[31][63] = true;
    cpu.clear_screen();
    for row in 0..32 {
        for col in 0..64 {
            assert!(!cpu.display[row][col]);
        }
    }
}

#[test]
fn copy_register_overwrites_dest_and_keeps_src() {
    let mut cpu = CPU::new();
    cpu.registers[1] = 7;
    cpu.registers[2] = 42;
    cpu.load(&[0x81, 0x20, 0x00, 0x00]);
    assert_eq!(cpu.run(), Ok(()));
    assert_eq!(cpu.registers[1], 42);
    assert_eq!(cpu.registers[2], 42);
}

#[test]
fn immediate_add_wraps_without_flag() {
    let mut cpu = CPU::new();
    cpu.registers[1] = 1;
    // Sentinel: the immediate add must leave the flag register untouched.
    cpu.registers[15] = 7;
    cpu.load(&[0x71, 0xFF, 0x00, 0x00]);
    assert_eq!(cpu.run(), Ok(()));
    assert_eq!(cpu.registers[1], 0);
    assert_eq!(cpu.registers[15], 7);
}

#[test]
fn add_registers_sets_carry() {
    let mut cpu = CPU::new();
    cpu.registers[0] = 5;
    cpu.registers[1] = 10;
    cpu.registers[2] = 10;
    cpu.registers[3] = 235;
    cpu.load(&[0x80, 0x14, 0x80, 0x24, 0x80, 0x34, 0x00, 0x00]);
    assert_eq!(cpu.run(), Ok(()));
    // 5 + 10 + 10 + 235 == 260, which wraps to 4 and sets the carry flag.
    assert_eq!(cpu.registers[0], 4);
    assert_eq!(cpu.registers[15], 1);
}

#[test]
fn sub_registers_sets_borrow() {
    let mut cpu = CPU::new();
    cpu.registers[0] = 100;
    cpu.registers[1] = 90;
    cpu.registers[2] = 5;
    cpu.registers[3] = 6;
    cpu.load(&[0x80, 0x15, 0x80, 0x25, 0x80, 0x35, 0x00, 0x00]);
    assert_eq!(cpu.run(), Ok(()));
    // 100 - 90 - 5 == 5, and 5 - 6 borrows: 255, with the flag set.
    assert_eq!(cpu.registers[0], 255);
    assert_eq!(cpu.registers[15], 1);
}

#[test]
fn halt_preserves_registers() {
    let mut cpu = CPU::new();
    for i in 0..16 {
        cpu.registers[i] = i as u8 + 1;
    }
    // Fresh memory: the first fetched word is 0x0000.
    assert_eq!(cpu.run(), Ok(()));
    for i in 0..16 {
        assert_eq!(cpu.registers[i], i as u8 + 1);
    }
    assert_eq!(cpu.position_in_memory, 2);
}

#[test]
fn reset_twice_equals_once() {
    let mut cpu = CPU::new();
    cpu.registers[3] = 9;
    cpu.load(&[0x63, 0x44, 0x00, 0x00]);
    let _ = cpu.run();
    cpu.display[5][6] = true;
    cpu.reset();
    let regs = cpu.registers;
    let mem = cpu.memory;
    let pc = cpu.position_in_memory;
    let stack = cpu.stack;
    let sp = cpu.stack_pointer;
    let display = cpu.display;
    cpu.reset();
    assert_eq!(cpu.registers, regs);
    assert!(cpu.memory == mem);
    assert_eq!(cpu.position_in_memory, pc);
    assert_eq!(cpu.stack, stack);
    assert_eq!(cpu.stack_pointer, sp);
    assert_eq!(cpu.display, display);
    // The reset state is the zero state, except the display persists.
    assert_eq!(cpu.registers, [0u8; 16]);
    assert!(cpu.memory.iter().all(|&b| b == 0));
    assert_eq!(cpu.position_in_memory, 0);
    assert!(cpu.display[5][6]);
}

#[test]
fn run_faults_on_out_of_bounds_fetch() {
    let mut cpu = CPU::new();
    cpu.position_in_memory = 4095;
    assert_eq!(cpu.run(), Err(Fault::OutOfBounds));
    assert_eq!(cpu.position_in_memory, 4095);
}

#[test]
fn run_faults_on_unrecognized_opcode() {
    let mut cpu = CPU::new();
    cpu.load(&[0xFF, 0xFF]);
    assert_eq!(cpu.run(), Err(Fault::UnrecognizedOpcode));
    // The counter advances before dispatch, fault or not.
    assert_eq!(cpu.position_in_memory, 2);
}
