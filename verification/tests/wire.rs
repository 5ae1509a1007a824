//! The debug control plane end to end: wire parsing, command handling,
//! snapshot records, and the driver-loop scenarios.

use chip8vm::chip8::{Chip8, font_table};
use chip8vm::commands::Commands;
use chip8vm::debug::{Chip8Snapshots, CpuSnapshot, DbgMessage};
use chip8vm::display::Display;
use chip8vm::keypad::Keypad;
use chip8vm::protocol::RemoteDbg;

fn parse(line: &str) -> Option<DbgMessage> {
    RemoteDbg::parse_request(&line.as_bytes().to_vec())
}

#[test]
fn requests_parse() {
    assert_eq!(parse("start"), Some(DbgMessage::START));
    assert_eq!(parse("stop"), Some(DbgMessage::STOP));
    assert_eq!(parse("step"), Some(DbgMessage::STEP));
    assert_eq!(parse("cpu"), Some(DbgMessage::CPU));
    assert_eq!(parse("mem 512 16"), Some(DbgMessage::MEM(512, 16)));
    assert_eq!(parse("mem  0512   16  "), Some(DbgMessage::MEM(512, 16)));
    assert_eq!(parse("cpu "), Some(DbgMessage::CPU));
}

#[test]
fn malformed_requests_are_rejected() {
    assert_eq!(parse(""), None);
    assert_eq!(parse("go"), None);
    assert_eq!(parse("started"), None);
    assert_eq!(parse("mem"), None);
    assert_eq!(parse("mem 512"), None);
    assert_eq!(parse("mem 512 16 9"), None);
    assert_eq!(parse("mem 70000 1"), None); // address over 16 bits
    assert_eq!(parse("mem 1x2 3"), None);
    assert_eq!(parse("CPU"), None); // commands are lower case
}

#[test]
fn requests_round_trip_through_their_canonical_lines() {
    let msgs = [
        DbgMessage::START,
        DbgMessage::STOP,
        DbgMessage::STEP,
        DbgMessage::CPU,
        DbgMessage::MEM(0x200, 16),
        DbgMessage::MEM(0, 0),
        DbgMessage::MEM(65535, 65535),
    ];
    for msg in msgs {
        let line = RemoteDbg::format_request(&msg);
        assert_eq!(RemoteDbg::parse_request(&line), Some(msg));
    }
    assert_eq!(RemoteDbg::format_request(&DbgMessage::MEM(512, 16)), b"mem 512 16".to_vec());
}

#[test]
fn decimal_arguments_cover_the_full_16_bit_range() {
    assert_eq!(parse("mem 65535 65535"), Some(DbgMessage::MEM(65535, 65535)));
    assert_eq!(parse("mem 65536 1"), None);
    assert_eq!(parse("mem 0 0"), Some(DbgMessage::MEM(0, 0)));
    assert_eq!(parse("mem 00000065535 1"), Some(DbgMessage::MEM(65535, 1)));
    assert_eq!(parse("mem 99999999999999999999 1"), None);
}

#[test]
fn operator_commands_parse() {
    let parse = |s: &str| Commands::parse(&s.as_bytes().to_vec());
    assert_eq!(parse("cpu"), Some(Commands::Cpu));
    assert_eq!(parse("start"), Some(Commands::Start));
    assert_eq!(parse("step"), Some(Commands::Step));
    assert_eq!(parse("stop"), Some(Commands::Stop));
    assert_eq!(parse("disasm 512"), Some(Commands::Disasm(512)));
    assert_eq!(parse("mem 512"), Some(Commands::Mem(512)));
    assert_eq!(parse("mem"), None);
    assert_eq!(parse("disasm 512 9"), None);
    assert_eq!(parse("quit"), None);
}

#[test]
fn snapshot_record_round_trips() {
    let mut chip8 = Chip8::new(Display::new(), Keypad::new());
    chip8.load_rom(&vec![0x6A, 0x02, 0x12, 0x00]).unwrap();
    chip8.step().unwrap();
    let snap = match chip8.handle_dbg_message(DbgMessage::CPU) {
        (Some(Chip8Snapshots::CPU(s)), Ok(())) => s,
        _ => panic!("expected a cpu snapshot"),
    };
    let bytes = snap.encode();
    assert_eq!(bytes.len(), 53);
    let back = CpuSnapshot::decode(&bytes).expect("a record of the right length parses");
    assert_eq!(back.v, snap.v);
    assert_eq!(back.i, snap.i);
    assert_eq!(back.pc, snap.pc);
    assert_eq!(back.sp, snap.sp);
    assert_eq!(back.stack, snap.stack);
    assert!(CpuSnapshot::decode(&bytes[1..].to_vec()).is_none());
    assert!(CpuSnapshot::decode(&Vec::new()).is_none());
}

#[test]
fn start_three_steps_then_cpu_reports_the_advanced_counter() {
    let mut chip8 = Chip8::new(Display::new(), Keypad::new());
    chip8.load_rom(&vec![0x6A, 0x02, 0x12, 0x00]).unwrap();
    let msgs = ["start", "step", "step", "step", "cpu"];
    let mut reply: Option<Vec<u8>> = None;
    for line in msgs {
        let msg = parse(line).expect("a well-formed request");
        let (resp, res) = chip8.handle_dbg_message(msg);
        res.unwrap();
        if let Some(snapshot) = resp {
            reply = Some(RemoteDbg::encode_response(&snapshot));
        }
    }
    let snap = CpuSnapshot::decode(&reply.expect("cpu answers with a record")).unwrap();
    // three executed instructions: set VA (+2), jump back (to 0x200),
    // set VA again (+2)
    assert_eq!(snap.pc, 0x202);
    assert_eq!(snap.v[10], 2);
}

#[test]
fn stop_while_running_then_mem_returns_the_program_bytes() {
    let mut chip8 = Chip8::new(Display::new(), Keypad::new());
    let rom: Vec<u8> = (0u8..16).map(|k| 0x60 + k).collect();
    chip8.load_rom(&rom).unwrap();
    // run a few driver iterations while Running
    let (_, res) = chip8.run(Some(DbgMessage::START));
    res.unwrap();
    // stop, then ask for the program's load region
    let (_, res) = chip8.run(Some(DbgMessage::STOP));
    res.unwrap();
    let (resp, res) = chip8.run(Some(DbgMessage::MEM(0x200, 16)));
    res.unwrap();
    let bytes = match resp {
        Some(Chip8Snapshots::MEM(b)) => b,
        _ => panic!("expected a memory dump"),
    };
    assert_eq!(bytes, rom); // unchanged, though the run state is Stopped
}

#[test]
fn memory_dump_is_clamped_to_the_region() {
    let mut chip8 = Chip8::new(Display::new(), Keypad::new());
    let (resp, res) = chip8.handle_dbg_message(DbgMessage::MEM(4090, 100));
    res.unwrap();
    match resp {
        Some(Chip8Snapshots::MEM(b)) => assert_eq!(b.len(), 6),
        _ => panic!("expected a memory dump"),
    }
    let (resp, _) = chip8.handle_dbg_message(DbgMessage::MEM(5000, 4));
    match resp {
        Some(Chip8Snapshots::MEM(b)) => assert!(b.is_empty()),
        _ => panic!("expected a memory dump"),
    }
}

#[test]
fn the_font_table_is_loaded_at_the_bottom() {
    let mut chip8 = Chip8::new(Display::new(), Keypad::new());
    let (resp, _) = chip8.handle_dbg_message(DbgMessage::MEM(0, 80));
    let bytes = match resp {
        Some(Chip8Snapshots::MEM(b)) => b,
        _ => panic!("expected a memory dump"),
    };
    assert_eq!(bytes, font_table());
    assert_eq!(&bytes[0..5], &[0xF0, 0x90, 0x90, 0x90, 0xF0]); // glyph 0
    assert_eq!(&bytes[75..80], &[0xF0, 0x80, 0xF0, 0x80, 0x80]); // glyph F
}

#[test]
fn an_oversized_program_image_is_rejected_whole() {
    let mut chip8 = Chip8::new(Display::new(), Keypad::new());
    let rom = vec![0xAB; 3585];
    assert_eq!(
        chip8.load_rom(&rom),
        Err(chip8vm::Fault::Address { addr: 0x200 })
    );
    let rom = vec![0xAB; 3584];
    assert!(chip8.load_rom(&rom).is_ok());
}

#[test]
fn driver_iterations_only_cycle_while_running() {
    let mut chip8 = Chip8::new(Display::new(), Keypad::new());
    chip8.load_rom(&vec![0x6A, 0x02, 0x12, 0x00]).unwrap();
    // created: an empty iteration does not execute
    let (_, res) = chip8.run(None);
    res.unwrap();
    let pc_of = |chip8: &mut Chip8| match chip8.handle_dbg_message(DbgMessage::CPU) {
        (Some(Chip8Snapshots::CPU(s)), Ok(())) => s.pc,
        _ => panic!("expected a cpu snapshot"),
    };
    assert_eq!(pc_of(&mut chip8), 0x200);
    // started: each iteration executes one cycle
    let (_, res) = chip8.run(Some(DbgMessage::START));
    res.unwrap();
    assert_eq!(pc_of(&mut chip8), 0x202);
    let (_, res) = chip8.run(None);
    res.unwrap();
    assert_eq!(pc_of(&mut chip8), 0x200);
    // stopped again: iterations are idle
    let (_, res) = chip8.run(Some(DbgMessage::STOP));
    res.unwrap();
    let (_, res) = chip8.run(None);
    res.unwrap();
    assert_eq!(pc_of(&mut chip8), 0x200);
}
