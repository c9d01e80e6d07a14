use dcb_tim::color::Color;
use dcb_tim::tim::{ColorsError, Tim};
use dcb_tim::img::{self, Img, Pixels};
use dcb_tim::clut::{self, Clut};
use dcb_tim::tools::card_editor::{
    CardChanges, CardEditState, DigimonChanges, DigimonEditState, DigivolveEditState, ItemEditState, ReplaceStrScreen,
    SwapScreen,
};
use dcb_tim::tools::dbg::{
    parse_number, ExecError, ExecResult, ExecState, InputError, InputState, JumpTarget, Memory, MultReg, SysCall, MEMORY_SIZE,
};
use dcb_tim::tools::assembler::{add_label, resolve_label_name, AddLabelError};
use dcb_tim::tools::decompiler::LabelDisplay;
use dcb_tim::tools::file_editor::{image_pallettes_colors, DisplayResults, SwapFileStatus, SwapWindow};
use dcb_tim::tools::unmsd::{decimal_string, heuristic_labels};

fn exec_state() -> ExecState {
    ExecState {
        pc: 0x8005_6270,
        regs: [0; 32],
        lo_hi_reg: [0; 2],
        memory: Memory::new(),
        jump_target: JumpTarget::NoJump,
        should_stop: false,
        results: vec![],
    }
}

#[test]
fn memory_new_get() {
    let mut memory = Memory::new();
    assert_eq!(memory.get(0), Some(&0));
    assert_eq!(memory.get(MEMORY_SIZE - 1), Some(&0));
    assert_eq!(memory.get(MEMORY_SIZE), None);
    *memory.get_mut(5).unwrap() = 7;
    assert_eq!(memory.get(5), Some(&7));
    assert!(memory.get_mut(MEMORY_SIZE).is_none());
    assert_eq!(memory.get_range(4, 7), Some(&[0u8, 7, 0][..]));
    assert_eq!(memory.get_range(MEMORY_SIZE - 1, MEMORY_SIZE + 1), None);
    assert_eq!(memory.get_range(3, 2), None);
}

#[test]
fn memory_get_range_mut() {
    let mut memory = Memory::new();
    {
        let range = memory.get_range_mut(8, 11).unwrap();
        assert_eq!(range.len(), 3);
        range.copy_from_slice(&[1, 2, 3]);
    }
    assert_eq!(memory.get_range(7, 12), Some(&[0u8, 1, 2, 3, 0][..]));
    assert_eq!(memory.get_range_mut(MEMORY_SIZE - 2, MEMORY_SIZE).map(|r| r.len()), Some(2));
    assert!(memory.get_range_mut(MEMORY_SIZE - 1, MEMORY_SIZE + 1).is_none());
    assert!(memory.get_range_mut(5, 4).is_none());
    assert_eq!(memory.get_range(0, 8), Some(&[0u8; 8][..]));
}

#[test]
fn exec_write_read_word() {
    let mut state = exec_state();
    // The top nibble is ignored: 0x8000_0010 addresses byte 0x10
    assert_eq!(state.write_word(0x8000_0010, 0xdead_beef), Ok(()));
    assert_eq!(state.read_word(0x0000_0010), Ok(0xdead_beef));
    assert_eq!(state.read_byte(0x8000_0010), Ok(0xef));
    assert_eq!(state.read_half_word(0x8000_0012), Ok(0xdead));
    assert_eq!(state.memory.get(0x14), Some(&0));
    assert_eq!(
        state.results,
        vec![
            ExecResult::WriteWord { pos: 0x8000_0010, prev: 0, value: 0xdead_beef },
            ExecResult::ReadWord { pos: 0x10, value: 0xdead_beef },
            ExecResult::ReadByte { pos: 0x8000_0010, value: 0xef },
            ExecResult::ReadHalfWord { pos: 0x8000_0012, value: 0xdead },
        ]
    );
}

#[test]
fn exec_write_half_word_and_byte() {
    let mut state = exec_state();
    assert_eq!(state.write_half_word(0x20, 0xbeef), Ok(()));
    assert_eq!(state.write_byte(0x22, 0x12), Ok(()));
    assert_eq!(state.read_word(0x20), Ok(0x0012_beef));
    assert_eq!(state.write_byte(0x22, 0x34), Ok(()));
    assert_eq!(state.results[3], ExecResult::WriteByte { pos: 0x22, prev: 0x12, value: 0x34 });
}

#[test]
fn exec_memory_errors() {
    let mut state = exec_state();
    assert_eq!(state.read_word(0x2), Err(ExecError::MemoryUnalignedAccess { pos: 0x2 }));
    assert_eq!(state.read_half_word(0x3), Err(ExecError::MemoryUnalignedAccess { pos: 0x3 }));
    assert_eq!(state.write_word(0x1, 5), Err(ExecError::MemoryUnalignedAccess { pos: 0x1 }));
    assert_eq!(state.write_half_word(0x1, 5), Err(ExecError::MemoryUnalignedAccess { pos: 0x1 }));
    assert_eq!(state.read_word(0x0020_0000), Err(ExecError::MemoryOutOfBounds { pos: 0x0020_0000 }));
    assert_eq!(state.read_half_word(0x0020_0000), Err(ExecError::MemoryOutOfBounds { pos: 0x0020_0000 }));
    assert_eq!(state.read_byte(0x0020_0000), Err(ExecError::MemoryOutOfBounds { pos: 0x0020_0000 }));
    assert_eq!(state.write_word(0x0020_0000, 1), Err(ExecError::MemoryOutOfBounds { pos: 0x0020_0000 }));
    assert_eq!(state.write_half_word(0x0020_0000, 1), Err(ExecError::MemoryOutOfBounds { pos: 0x0020_0000 }));
    assert_eq!(state.write_byte(0x0020_0000, 1), Err(ExecError::MemoryOutOfBounds { pos: 0x0020_0000 }));
    // The last word of memory can be read
    assert_eq!(state.read_word(0x001f_fffc), Ok(0));
    assert!(state.results.len() == 1);
}

#[test]
fn exec_registers() {
    let mut state = exec_state();
    state.store_reg(4, 10);
    assert_eq!(state.load_reg(4), 10);
    state.store_mult_reg(MultReg::Hi, 3);
    assert_eq!(state.load_mult_reg(MultReg::Hi), 3);
    assert_eq!(state.load_mult_reg(MultReg::Lo), 0);
    assert_eq!(
        state.results,
        vec![
            ExecResult::WroteRegister { reg: 4, prev: 0, value: 10 },
            ExecResult::ReadRegister { reg: 4, value: 10 },
            ExecResult::WroteMultRegister { reg: MultReg::Hi, prev: 0, value: 3 },
            ExecResult::ReadMultRegister { reg: MultReg::Hi, value: 3 },
            ExecResult::ReadMultRegister { reg: MultReg::Lo, value: 0 },
        ]
    );
}

#[test]
fn exec_jump_delay_slot() {
    let mut state = exec_state();
    assert_eq!(state.queue_jump(0x8001_0000), Ok(()));
    assert_eq!(state.queue_jump(0x8002_0000), Err(ExecError::JumpWhileJumping));
    state.update_pc();
    assert_eq!(state.pc(), 0x8005_6274);
    assert_eq!(state.jump_target, JumpTarget::JumpNow(0x8001_0000));
    state.update_pc();
    assert_eq!(state.pc(), 0x8001_0000);
    assert_eq!(state.jump_target, JumpTarget::NoJump);
    state.update_pc();
    assert_eq!(state.pc(), 0x8001_0004);
    assert_eq!(state.results, vec![ExecResult::QueuedJump { pos: 0x8001_0000 }]);
}

#[test]
fn parse_number_bases() {
    assert_eq!(parse_number("42"), Some(42));
    assert_eq!(parse_number("+42"), Some(42));
    assert_eq!(parse_number("-42"), Some(-42));
    assert_eq!(parse_number("0x1f"), Some(31));
    assert_eq!(parse_number("0xFF"), Some(255));
    assert_eq!(parse_number("-0x10"), Some(-16));
    assert_eq!(parse_number("0o17"), Some(15));
    assert_eq!(parse_number("0b101"), Some(5));
    assert_eq!(parse_number("0"), Some(0));
    assert_eq!(parse_number("9223372036854775807"), Some(i64::MAX));
    assert_eq!(parse_number("-9223372036854775807"), Some(-i64::MAX));
}

#[test]
fn parse_number_round_trip() {
    for n in [0i64, 1, 7, 42, 255, 4096, 123_456_789, i64::MAX] {
        assert_eq!(parse_number(&n.to_string()), Some(n));
        assert_eq!(parse_number(&format!("+{n}")), Some(n));
        assert_eq!(parse_number(&format!("-{n}")), Some(-n));
        assert_eq!(parse_number(&format!("0x{n:x}")), Some(n));
        assert_eq!(parse_number(&format!("-0x{n:x}")), Some(-n));
        assert_eq!(parse_number(&format!("0o{n:o}")), Some(n));
        assert_eq!(parse_number(&format!("+0b{n:b}")), Some(n));
    }
}

#[test]
fn parse_number_errors() {
    assert_eq!(parse_number(""), None);
    assert_eq!(parse_number("-"), None);
    assert_eq!(parse_number("0x"), None);
    assert_eq!(parse_number("abc"), None);
    assert_eq!(parse_number("0b102"), None);
    assert_eq!(parse_number("12 "), None);
    assert_eq!(parse_number("9223372036854775808"), None);
    assert_eq!(parse_number("-9223372036854775808"), None);
}

#[test]
fn parse_number_double_sign() {
    // The sign of the digits themselves is accepted after the base prefix
    assert_eq!(parse_number("0x-10"), Some(-16));
    assert_eq!(parse_number("--5"), Some(5));
}

#[test]
fn swap_file_status_toggle() {
    let mut status = SwapFileStatus::default();
    assert!(status.is_unset());
    assert_eq!(status.as_str(), None);
    assert_eq!(status.button_label(), "Set");
    status.toggle();
    assert_eq!(status, SwapFileStatus::Setting(None));
    assert!(status.is_setting());
    assert_eq!(status.button_label(), "...");
    status.toggle();
    assert_eq!(status, SwapFileStatus::Unset);

    let mut status = SwapFileStatus::Chosen("A.TIM".to_owned());
    assert!(status.is_set());
    assert_eq!(status.as_str(), Some("A.TIM"));
    status.toggle();
    assert_eq!(status, SwapFileStatus::Setting(Some("A.TIM".to_owned())));
    assert_eq!(status.as_str(), Some("A.TIM"));
    status.toggle();
    assert_eq!(status, SwapFileStatus::Chosen("A.TIM".to_owned()));
}

#[test]
fn swap_window_on_file_click() {
    let mut window = SwapWindow::default();
    window.first.toggle();
    window.on_file_click("A.TIM");
    assert_eq!(window.first, SwapFileStatus::Chosen("A.TIM".to_owned()));
    assert_eq!(window.second, SwapFileStatus::Unset);
    window.second.toggle();
    window.on_file_click("B.TIM");
    assert_eq!(window.first, SwapFileStatus::Chosen("A.TIM".to_owned()));
    assert_eq!(window.second, SwapFileStatus::Chosen("B.TIM".to_owned()));
}

fn descriptions() -> [String; 4] {
    ["a".to_owned(), "b".to_owned(), String::new(), String::new()]
}

#[test]
fn card_edit_state_accessors() {
    let mut state = CardEditState::Item(ItemEditState { name: "Potion".to_owned(), effect_description: descriptions() });
    assert!(state.as_digimon_mut().is_none());
    assert!(state.as_digivolve_mut().is_none());
    state.as_item_mut().unwrap().name = "Elixir".to_owned();
    assert_eq!(state, CardEditState::Item(ItemEditState { name: "Elixir".to_owned(), effect_description: descriptions() }));

    let mut state = CardEditState::Digimon(DigimonEditState {
        name: "Agumon".to_owned(),
        move_circle_name: "Spit Fire".to_owned(),
        move_triangle_name: "Red Claw".to_owned(),
        move_cross_name: "Heat Breath".to_owned(),
        effect_description: descriptions(),
    });
    assert!(state.as_item_mut().is_none());
    assert_eq!(state.as_digimon_mut().unwrap().move_cross_name, "Heat Breath");

    let mut state =
        CardEditState::Digivolve(DigivolveEditState { name: "Warp".to_owned(), effect_description: descriptions() });
    assert!(state.as_digimon_mut().is_none());
    assert_eq!(state.as_digivolve_mut().unwrap().name, "Warp");
}

#[test]
fn card_changes_default() {
    let changes = DigimonChanges::default();
    assert!(!changes.hp && changes.effects == [false; 3]);
    let c = CardChanges::DifferentDigimon { lhs_id: 1, rhs_id: 2, changes };
    assert_eq!(c, CardChanges::DifferentDigimon { lhs_id: 1, rhs_id: 2, changes: DigimonChanges::default() });
}

#[test]
fn screens_new() {
    let _ = ReplaceStrScreen::new();
    let _ = SwapScreen::new(1, 2);
    let results = DisplayResults { preview_path: Some("A.TIM".to_owned()) };
    assert_eq!(results.preview_path.as_deref(), Some("A.TIM"));
}

#[test]
fn implies_truth_table() {
    assert!(dcb_tim::tools::assembler::implies(false, || false));
    assert!(dcb_tim::tools::assembler::implies(false, || panic!("not evaluated")));
    assert!(dcb_tim::tools::assembler::implies(true, || true));
    assert!(!dcb_tim::tools::assembler::implies(true, || false));
}

#[test]
fn label_display_text() {
    assert_eq!(LabelDisplay::CurFuncLabel("loop").to_string(), ".loop");
    assert_eq!(LabelDisplay::OtherFuncLabel { func: "main", label: "exit" }.to_string(), "main.exit");
    assert_eq!(LabelDisplay::OtherFunc { func: "main" }.to_string(), "main");
    assert_eq!(LabelDisplay::Data { name: "table" }.to_string(), "table");
}

fn indexed_tim(colors: usize, idxs: Vec<usize>) -> Tim {
    Tim {
        clut: Some(Clut {
            header: clut::Header { pos: [0, 0], size: [colors as u16, 1] },
            colors: (0..colors).map(|n| Color { r: n as u8, g: 0, b: 0, stp: false }).collect(),
        }),
        img: Img { header: img::Header { length: 14, pos: [0, 0], size: [1, 1] }, pixels: Pixels::Index4Bit(idxs) },
    }
}

#[test]
fn image_pallettes() {
    let tim = indexed_tim(32, vec![0, 15]);
    let pallettes = image_pallettes_colors(&tim).unwrap();
    assert_eq!(pallettes, vec![vec![[0, 0, 0, 0], [15, 0, 0, 0]], vec![[16, 0, 0, 0], [31, 0, 0, 0]]]);

    let tim = indexed_tim(20, vec![0, 15]);
    assert_eq!(image_pallettes_colors(&tim), Err(ColorsError::ColorOutOfBounds));

    let tim = indexed_tim(0, vec![0, 15]);
    assert_eq!(image_pallettes_colors(&tim), Ok(vec![]));
}

#[test]
fn input_state_update() {
    let mut state = InputState::BreakEvery;
    assert_eq!(state.update(&["r", "0x80010000"]), Ok(()));
    assert_eq!(state, InputState::RunUntil { pos: Some(0x8001_0000) });
    assert_eq!(state.update(&[]), Ok(()));
    assert_eq!(state, InputState::RunUntil { pos: Some(0x8001_0000) });
    assert_eq!(state.update(&["n", "ignored"]), Ok(()));
    assert_eq!(state, InputState::BreakEvery);
    assert_eq!(state.update(&["r"]), Ok(()));
    assert_eq!(state, InputState::RunUntil { pos: None });
}

#[test]
fn input_state_update_errors() {
    let mut state = InputState::BreakEvery;
    assert_eq!(state.update(&["r", "zz"]), Err(InputError::ParsePosition));
    assert_eq!(state.update(&["r", "-1"]), Err(InputError::PositionTooLarge));
    assert_eq!(state.update(&["r", "0x100000000"]), Err(InputError::PositionTooLarge));
    assert_eq!(state.update(&["q"]), Err(InputError::UnknownArgument("q".to_owned())));
    assert_eq!(state.update(&["nn"]), Err(InputError::UnknownArgument("nn".to_owned())));
    assert_eq!(state, InputState::BreakEvery);
}

#[test]
fn sys_calls() {
    let mut state = exec_state();
    let mut text = Vec::new();
    assert_eq!(state.sys(2, &mut text), Ok(SysCall::PrintRegisters));
    assert_eq!(state.sys(3, &mut text), Err(ExecError::UnknownSys { comment: 3 }));
    assert!(!state.should_stop);
    assert_eq!(state.sys(0, &mut text), Ok(SysCall::Stop));
    assert!(state.should_stop);
    assert!(text.is_empty() && state.results.is_empty());
}

#[test]
fn sys_print_string() {
    let mut state = exec_state();
    for (i, b) in b"hi!".iter().enumerate() {
        state.write_byte(0x8000_0100 + i as u32, *b).unwrap();
    }
    state.results.clear();
    state.store_reg(2, 0x8000_0100);
    state.results.clear();
    let mut text = b">".to_vec();
    assert_eq!(state.sys(1, &mut text), Ok(SysCall::PrintStr));
    assert_eq!(text, b">hi!");
    assert_eq!(state.results.len(), 4);
    assert_eq!(state.results[3], ExecResult::ReadByte { pos: 0x8000_0103, value: 0 });
}

#[test]
fn sys_print_string_out_of_bounds() {
    let mut state = exec_state();
    state.write_byte(0x001f_fffe, b'a').unwrap();
    state.write_byte(0x001f_ffff, b'b').unwrap();
    state.store_reg(2, 0x001f_fffe);
    state.results.clear();
    let mut text = Vec::new();
    assert_eq!(state.sys(1, &mut text), Err(ExecError::MemoryOutOfBounds { pos: 0x0020_0000 }));
    assert_eq!(text, b"ab");
    assert_eq!(state.results.len(), 2);

    state.store_reg(2, 0x0030_0000);
    let mut text = Vec::new();
    assert_eq!(state.sys(1, &mut text), Err(ExecError::MemoryOutOfBounds { pos: 0x0030_0000 }));
    assert!(text.is_empty());
}

fn owned(labels: &[(u32, &str)]) -> Vec<(u32, String)> {
    labels.iter().map(|&(pos, name)| (pos, name.to_string())).collect()
}

#[test]
fn assembler_add_label() {
    let mut labels: Vec<(u32, String)> = vec![];
    assert_eq!(
        add_label(".loop".to_string(), 0x10, &mut labels),
        Err(AddLabelError::LocalBeforeGlobal { name: ".loop".to_string() })
    );
    assert!(labels.is_empty());
    assert_eq!(add_label("start".to_string(), 0x10, &mut labels), Ok(()));
    assert_eq!(add_label("func".to_string(), 0x20, &mut labels), Ok(()));
    // A local label takes the name of the last global label before it
    assert_eq!(add_label(".loop".to_string(), 0x18, &mut labels), Ok(()));
    assert_eq!(add_label(".loop".to_string(), 0x24, &mut labels), Ok(()));
    assert_eq!(add_label("start".to_string(), 0x30, &mut labels), Err(AddLabelError::Duplicate { pos: 0x10 }));
    assert_eq!(add_label(".loop".to_string(), 0x28, &mut labels), Err(AddLabelError::Duplicate { pos: 0x24 }));
    assert_eq!(labels, owned(&[(0x10, "start"), (0x18, "start.loop"), (0x20, "func"), (0x24, "func.loop")]));
    // A second label at one position comes after the first
    assert_eq!(add_label("other".to_string(), 0x20, &mut labels), Ok(()));
    assert_eq!(
        labels,
        owned(&[(0x10, "start"), (0x18, "start.loop"), (0x20, "func"), (0x20, "other"), (0x24, "func.loop")])
    );
}

#[test]
fn assembler_resolve_label_name() {
    let labels = owned(&[(0x10, "start"), (0x18, "start.loop"), (0x20, "func"), (0x20, "other"), (0x24, "func.loop")]);
    assert_eq!(resolve_label_name("plain".to_string(), 0x0, &labels), Ok("plain".to_string()));
    assert_eq!(resolve_label_name(".x".to_string(), 0x1c, &labels), Ok("start.x".to_string()));
    // Local labels are never the ones a name is resolved against
    assert_eq!(resolve_label_name(".x".to_string(), 0x30, &labels), Ok("other.x".to_string()));
    assert_eq!(
        resolve_label_name(".x".to_string(), 0x0f, &labels),
        Err(AddLabelError::LocalBeforeGlobal { name: ".x".to_string() })
    );
}

#[test]
fn unmsd_heuristic_labels() {
    let jumps = [0x40, 0x10, 0x40, 0x30, 0x20, 0x10];
    let labels = heuristic_labels(&jumps, &[0x30]);
    assert_eq!(labels, owned(&[(0x10, "jump_0"), (0x20, "jump_1"), (0x40, "jump_2")]));
    assert!(heuristic_labels(&[], &[]).is_empty());
    assert!(heuristic_labels(&[0x8], &[0x8]).is_empty());
}

#[test]
fn unmsd_heuristic_labels_many() {
    let jumps: Vec<u32> = (0..12u32).rev().map(|i| i * 4).collect();
    let labels = heuristic_labels(&jumps, &[]);
    assert_eq!(labels.len(), 12);
    assert_eq!(labels[0], (0, "jump_0".to_string()));
    assert_eq!(labels[10], (40, "jump_10".to_string()));
    assert_eq!(labels[11], (44, "jump_11".to_string()));
}

#[test]
fn unmsd_decimal_string() {
    assert_eq!(decimal_string(0), "0");
    assert_eq!(decimal_string(9), "9");
    assert_eq!(decimal_string(10), "10");
    assert_eq!(decimal_string(1_234_567_890), "1234567890");
    assert_eq!(decimal_string(usize::MAX), usize::MAX.to_string());
}
