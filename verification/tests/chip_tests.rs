use chip8::arch::NVREGS;
use chip8::chip::Chip;
use chip8::profile::Profile;

const I: u16 = 0x300;


fn run_code(chip: &mut Chip, code: &[u16]) {
    chip.ram.load_block_u16(0x200, &code).unwrap();
    chip.set_pc(0x200);
    for _ in code {
        chip.cycle().unwrap();
    }
}

#[test]
fn chip_new() {
    let _ = Chip::new(Profile::original()).unwrap();
}

#[test]
fn set_pc() {
    let mut chip = Chip::new(Profile::original()).unwrap();
    chip.set_pc(0x200);
    assert_eq!(chip.regs.pc, 0x200);
}

#[test]
fn one_instr_pc() {
    let mut chip = Chip::new(Profile::original()).unwrap();
    let code  = [ 0x00E0_u16 ];
    chip.ram.load_block_u16(0x200, &code).unwrap();
    chip.set_pc(0x200);
    assert_eq!(chip.regs.pc, 0x200);
    chip.cycle().unwrap();
    assert_eq!(chip.regs.pc, 0x202);
}

#[test]
fn few_instr_pc() {
    let mut chip = Chip::new(Profile::original()).unwrap();
    let code  = [ 0x00E0_u16, 0x00E0_u16 ];
    chip.ram.load_block_u16(0x200, &code).unwrap();
    chip.set_pc(0x200);
    assert_eq!(chip.regs.pc, 0x200);
    chip.cycle().unwrap();
    assert_eq!(chip.regs.pc, 0x202);
    chip.cycle().unwrap();
    assert_eq!(chip.regs.pc, 0x204);

    chip.set_pc(0x200);
    assert_eq!(chip.regs.pc, 0x200);
    for _ in code {
        chip.cycle().unwrap();
    }
    assert_eq!(chip.regs.pc, (0x200 + code.len() * 2) as u16);

}

#[test]
fn ret_0() {
    let mut chip = Chip::new(Profile::original()).unwrap();

    let start_pc: u16 = 0x210;
    let start_sp: u8 = 3;
    chip.regs.sp = start_sp;
    chip.stack[chip.regs.sp as usize] = start_pc;
    chip.regs.sp += 1;

    run_code(&mut chip, &[0x00EE_u16]); // RET

    assert_eq!(chip.regs.sp, start_sp);
    assert_eq!(chip.regs.pc, start_pc);
}

#[test]
fn jp_nnn_0() {
    let mut chip = Chip::new(Profile::original()).unwrap();

    run_code(&mut chip, &[0x1320_u16]); // JP 0x320

    assert_eq!(chip.regs.pc, 0x320);
}

#[test]
fn ld_vx_nn_0() {
    let mut chip = Chip::new(Profile::original()).unwrap();

    run_code(&mut chip, &[
        0x6222_u16, // LD V2, 0x22
        0x6015_u16, // LD V0, 0x15
        0x6FFF_u16, // LD VF, 0xFF
    ]);

    assert_eq!(chip.regs.vx[2], 0x22_u8);
    assert_eq!(chip.regs.vx[0], 0x15_u8);
    assert_eq!(chip.regs.vx[0xF], 0xFF_u8);
}

#[test]
fn se_vx_nn_0() {
    let mut chip = Chip::new(Profile::original()).unwrap();

    chip.regs.vx[2] = 0x22_u8;

    run_code(&mut chip, &[0x3222_u16]); // SE V2, 0x22

    assert_eq!(chip.regs.pc, 0x204);
}

#[test]
fn se_vx_nn_1() {
    let mut chip = Chip::new(Profile::original()).unwrap();

    chip.regs.vx[4] = 0x33_u8;
    chip.regs.vx[2] = 0x22_u8;

    run_code(&mut chip, &[0x3433_u16]); // SE V4, 0x33

    assert_eq!(chip.regs.pc, 0x204);
}

#[test]
fn se_vx_nn_2() {
    let mut chip = Chip::new(Profile::original()).unwrap();

    chip.regs.vx[4] = 0x33_u8;
    chip.regs.vx[2] = 0x22_u8;

    run_code(&mut chip, &[0x3422_u16]); // SE V4, 0x22

    assert_eq!(chip.regs.pc, 0x202);
}

#[test]
fn sne_vx_nn_0() {
    let mut chip = Chip::new(Profile::original()).unwrap();

    chip.regs.vx[2] = 0x22_u8;

    run_code(&mut chip, &[0x4222_u16]); // SNE V2, 0x22

    assert_eq!(chip.regs.pc, 0x202);
}

#[test]
fn sne_vx_nn_1() {
    let mut chip = Chip::new(Profile::original()).unwrap();

    chip.regs.vx[4] = 0x33_u8;
    chip.regs.vx[2] = 0x22_u8;

    run_code(&mut chip, &[0x4433_u16]); // SNE V4, 0x33

    assert_eq!(chip.regs.pc, 0x202);
}

#[test]
fn sne_vx_nn_2() {
    let mut chip = Chip::new(Profile::original()).unwrap();

    chip.regs.vx[4] = 0x33_u8;
    chip.regs.vx[2] = 0x22_u8;

    run_code(&mut chip, &[0x4422_u16]); // SNE V4, 0x22

    assert_eq!(chip.regs.pc, 0x204);
}

#[test]
fn se_vx_vy_0() {
    let mut chip = Chip::new(Profile::original()).unwrap();

    chip.regs.vx[2] = 0x22_u8;
    chip.regs.vx[3] = 0x22_u8;

    run_code(&mut chip, &[0x5230_u16]); // SE V2, V3

    assert_eq!(chip.regs.pc, 0x204);
}

#[test]
fn se_vx_vy_1() {
    let mut chip = Chip::new(Profile::original()).unwrap();

    chip.regs.vx[2] = 0x22_u8;
    chip.regs.vx[3] = 0x23_u8;

    run_code(&mut chip, &[0x5230_u16]); // SE V2, V3

    assert_eq!(chip.regs.pc, 0x202);
}

#[test]
fn ld_vx_vy_0() {
    let mut chip = Chip::new(Profile::original()).unwrap();

    run_code(&mut chip, &[
        0x6222_u16, // LD V2, 0x22  V2:=0x22
        0x6323_u16, // LD V3, 0x23  V3:=0x23
        0x8230_u16, // LD V2, V3    V2:=V3(0x23)
                    // V3 must be 0x23
    ]);

    assert_eq!(chip.regs.vx[3], 0x23_u8);
}

#[test]
fn or_vx_vy_0() {
    let mut chip = Chip::new(Profile::original()).unwrap();

    chip.regs.vx[2] = 0x64_u8;
    chip.regs.vx[3] = 0xA9_u8;

    run_code(&mut chip, &[0x8231_u16]); // OR V2, V3    V2:=b'11101101 -> 0xED

    assert_eq!(chip.regs.vx[2], 0xED_u8);
}

#[test]
fn and_vx_vy_0() {
    let mut chip = Chip::new(Profile::original()).unwrap();

    chip.regs.vx[2] = 0xCC_u8; // b'11001100
    chip.regs.vx[3] = 0xAA_u8; // b'10101010
                               // b'10001000

    run_code(&mut chip, &[0x8232_u16]); // AND V2, V3

    assert_eq!(chip.regs.vx[2], 0x88_u8);
}

#[test]
fn xor_vx_vy_0() {
    let mut chip = Chip::new(Profile::original()).unwrap();

    chip.regs.vx[2] = 0xCC_u8; // b'11001100
    chip.regs.vx[3] = 0xAA_u8; // b'10101010
                               // b'01100110

    run_code(&mut chip, &[0x8233_u16]); // XOR V2, V3

    assert_eq!(chip.regs.vx[2], 0x66_u8);
}

#[test]
fn add_vx_vy_0() {
    let mut chip = Chip::new(Profile::original()).unwrap();

    chip.regs.vx[2] = 0xFE_u8;
    chip.regs.vx[3] = 0x01_u8;

    run_code(&mut chip, &[0x8234_u16]); // ADD V2, V3

    assert_eq!(chip.regs.vx[2], 0xFF_u8);
    assert_eq!(chip.regs.vx[0xf], 0_u8);
}

#[test]
fn add_vx_vy_1() {
    let mut chip = Chip::new(Profile::original()).unwrap();

    chip.regs.vx[2] = 0xFF_u8;
    chip.regs.vx[3] = 0x01_u8;

    run_code(&mut chip, &[0x8234_u16]); // ADD V2, V3

    assert_eq!(chip.regs.vx[2], 0x00_u8);
    assert_eq!(chip.regs.vx[0xf], 1_u8);
}

#[test]
fn sub_vx_vy_0() {
    let mut chip = Chip::new(Profile::original()).unwrap();

    chip.regs.vx[2] = 0x10_u8;
    chip.regs.vx[3] = 0x04_u8;

    run_code(&mut chip, &[0x8235_u16]); // SUB V2, V3

    assert_eq!(chip.regs.vx[2], 0x0C_u8);
    assert_eq!(chip.regs.vx[0xf], 1_u8);
}

#[test]
fn sub_vx_vy_1() {
    let mut chip = Chip::new(Profile::original()).unwrap();

    chip.regs.vx[2] = 0x10_u8;
    chip.regs.vx[3] = 0x55_u8;

    run_code(&mut chip, &[0x8235_u16]); // SUB V2, V3

    assert_eq!(chip.regs.vx[2], 0xBB_u8);
    assert_eq!(chip.regs.vx[0xf], 0_u8);
}

#[test]
fn shr_vx_vy_0_orig() {
    let mut chip = Chip::new(Profile::original()).unwrap();

    chip.regs.vx[2] = 0x00_u8;
    chip.regs.vx[3] = 0x55_u8;

    run_code(&mut chip, &[0x8236_u16]); // SHR V2, V3

    assert_eq!(chip.regs.vx[2], 0x2A_u8);
    assert_eq!(chip.regs.vx[0xf], 1_u8);
}

#[test]
fn shr_vx_vy_1_orig() {
    let mut chip = Chip::new(Profile::original()).unwrap();

    chip.regs.vx[2] = 0x00_u8;
    chip.regs.vx[3] = 0x54_u8;

    run_code(&mut chip, &[0x8236_u16]); // SHR V2, V3

    assert_eq!(chip.regs.vx[2], 0x2A_u8);
    assert_eq!(chip.regs.vx[0xf], 0_u8);
}

#[test]
fn shr_vx_vy_0_modern() {
    let mut chip = Chip::new(Profile::modern()).unwrap();

    chip.regs.vx[2] = 0x55_u8;

    run_code(&mut chip, &[0x8236_u16]); // SHR V2, V3

    assert_eq!(chip.regs.vx[2], 0x2A_u8);
    assert_eq!(chip.regs.vx[0xf], 1_u8);
}

#[test]
fn shr_vx_vy_1_modern() {
    let mut chip = Chip::new(Profile::modern()).unwrap();

    chip.regs.vx[2] = 0x54_u8;

    run_code(&mut chip, &[0x8236_u16]); // SHR V2, V3

    assert_eq!(chip.regs.vx[2], 0x2A_u8);
    assert_eq!(chip.regs.vx[0xf], 0_u8);
}

#[test]
fn subn_vx_vy_0() {
    let mut chip = Chip::new(Profile::original()).unwrap();

    chip.regs.vx[2] = 0x04_u8;
    chip.regs.vx[3] = 0x10_u8;

    run_code(&mut chip, &[0x8237_u16]); // SUBN V2, V3

    assert_eq!(chip.regs.vx[2], 0x0C_u8);
    assert_eq!(chip.regs.vx[0xf], 1_u8);
}

#[test]
fn subn_vx_vy_1() {
    let mut chip = Chip::new(Profile::original()).unwrap();

    chip.regs.vx[2] = 0x55_u8;
    chip.regs.vx[3] = 0x10_u8;

    run_code(&mut chip, &[0x8237_u16]); // SUBN V2, V3

    assert_eq!(chip.regs.vx[2], 0xBB_u8);
    assert_eq!(chip.regs.vx[0xf], 0_u8);
}

#[test]
fn shl_vx_vy_0_orig() {
    let mut chip = Chip::new(Profile::original()).unwrap();

    chip.regs.vx[2] = 0x00_u8;
    chip.regs.vx[3] = 0x55_u8;

    run_code(&mut chip, &[0x823E_u16]); // SHL V2, V3

    assert_eq!(chip.regs.vx[2], 0xAA_u8);
    assert_eq!(chip.regs.vx[0xf], 0_u8);
}

#[test]
fn shl_vx_vy_1_orig() {
    let mut chip = Chip::new(Profile::original()).unwrap();

    chip.regs.vx[2] = 0x00_u8;
    chip.regs.vx[3] = 0xD5_u8;

    run_code(&mut chip, &[0x823E_u16]); // SHL V2, V3

    assert_eq!(chip.regs.vx[2], 0xAA_u8);
    assert_eq!(chip.regs.vx[0xf], 1_u8);
}

#[test]
fn shl_vx_vy_0_modern() {
    let mut chip = Chip::new(Profile::modern()).unwrap();

    chip.regs.vx[2] = 0x55_u8;

    run_code(&mut chip, &[0x823E_u16]); // SHL V2, V3

    assert_eq!(chip.regs.vx[2], 0xAA_u8);
    assert_eq!(chip.regs.vx[0xf], 0_u8);
}

#[test]
fn shl_vx_vy_1_modern() {
    let mut chip = Chip::new(Profile::modern()).unwrap();

    chip.regs.vx[2] = 0xD5_u8;

    run_code(&mut chip, &[0x823E_u16]); // SHL V2, V3

    assert_eq!(chip.regs.vx[2], 0xAA_u8);
    assert_eq!(chip.regs.vx[0xf], 1_u8);
}


#[test]
fn sne_vx_vy_0() {
    let mut chip = Chip::new(Profile::original()).unwrap();

    chip.regs.vx[2] = 0x00_u8;
    chip.regs.vx[3] = 0xD5_u8;

    run_code(&mut chip, &[0x9230_u16]); // SNE V2, V3

    assert_eq!(chip.regs.pc, 0x204);
}

#[test]
fn sne_vx_vy_1() {
    let mut chip = Chip::new(Profile::original()).unwrap();

    chip.regs.vx[2] = 0xD5_u8;
    chip.regs.vx[3] = 0xD5_u8;

    run_code(&mut chip, &[0x9230_u16]); // SNE V2, V3

    assert_eq!(chip.regs.pc, 0x202);
}

#[test]
fn ld_i_nnn_0() {
    let mut chip = Chip::new(Profile::original()).unwrap();

    run_code(&mut chip, &[0xA222_u16]); // LD I, 0x222

    assert_eq!(chip.regs.i, 0x222);
}

#[test]
fn ld_i_nnn_1() {
    let mut chip = Chip::new(Profile::original()).unwrap();

    chip.regs.i = 0x222;

    run_code(&mut chip, &[0xA001_u16]); // LD I, 0x001

    assert_eq!(chip.regs.i, 0x001);
}

#[test]
fn jp_v0_nnn_0() {
    let mut chip = Chip::new(Profile::original()).unwrap();

    chip.regs.vx[0] = 0x20_u8;

    run_code(&mut chip, &[0xB300_u16]); // JP V0, 0x300

    assert_eq!(chip.regs.pc, 0x320);
}

#[test]
fn rnd_vx_nn_0() {
    let mut chip = Chip::new_seed(0x0102030405060708, Profile::original());

    run_code(&mut chip, &[0xC255_u16]); // RND V2, 0x55

    assert_eq!(chip.regs.vx[2], 0x10u8);
}

#[test]
fn rnd_vx_nn_1() {
    let mut chip = Chip::new_seed(0x123456789abcdef0, Profile::original());

    run_code(&mut chip, &[0xC255_u16]); // RND V2, 0x55

    assert_eq!(chip.regs.vx[2], 0x00u8);
}

#[test]
fn rnd_vx_nn_2() {
    let mut chip = Chip::new_seed(0xa3b400323f8bcf31, Profile::original());

    run_code(&mut chip, &[0xC255_u16]); // RND V2, 0x55

    assert_eq!(chip.regs.vx[2], 0x04u8);
}

#[test]
fn rnd_vx_nn_3() {
    let mut chip = Chip::new_seed(0x0ba443debe98f002, Profile::original());

    run_code(&mut chip, &[0xC255_u16]); // RND V2, 0x55

    assert_eq!(chip.regs.vx[2], 0x01u8);
}

#[test]
fn skp_vx_0() {
    let mut chip = Chip::new(Profile::original()).unwrap();

    chip.regs.vx[7] = 0x02_u8;

    run_code(&mut chip, &[0xE79E_u16]); // SKP V7

    assert_eq!(chip.regs.pc, 0x202);
}

#[test]
fn skp_vx_1() {
    let mut chip = Chip::new(Profile::original()).unwrap();

    chip.regs.vx[7] = 0x02_u8;

    chip.key_press(2);
    chip.key_unpress(2);

    run_code(&mut chip, &[0xE79E_u16]); // SKP V7

    assert_eq!(chip.regs.pc, 0x202);
}

#[test]
fn skp_vx_2() {
    let mut chip = Chip::new(Profile::original()).unwrap();

    chip.regs.vx[7] = 0x02_u8;

    chip.key_press(2);

    run_code(&mut chip, &[0xE79E_u16]); // SKP V7

    assert_eq!(chip.regs.pc, 0x204);
}

#[test]
fn skp_vx_3() {
    let mut chip = Chip::new(Profile::original()).unwrap();

    chip.regs.vx[7] = 0x02_u8;

    chip.key_press(2);
    chip.key_unpress(2);
    chip.key_press(2);

    run_code(&mut chip, &[0xE79E_u16]); // SKP V7

    assert_eq!(chip.regs.pc, 0x204);
}

#[test]
fn skpn_vx_0() {
    let mut chip = Chip::new(Profile::original()).unwrap();

    chip.regs.vx[7] = 0x02_u8;

    run_code(&mut chip, &[0xE7A1_u16]); // SKPN V7

    assert_eq!(chip.regs.pc, 0x204);
}

#[test]
fn skpn_vx_1() {
    let mut chip = Chip::new(Profile::original()).unwrap();

    chip.regs.vx[7] = 0x02_u8;

    chip.key_press(2);
    chip.key_unpress(2);

    run_code(&mut chip, &[0xE7A1_u16]); // SKPN V7

    assert_eq!(chip.regs.pc, 0x204);
}

#[test]
fn skpn_vx_2() {
    let mut chip = Chip::new(Profile::original()).unwrap();

    chip.regs.vx[7] = 0x02_u8;

    chip.key_press(2);

    run_code(&mut chip, &[0xE7A1_u16]); // SKPN V7

    assert_eq!(chip.regs.pc, 0x202);
}

#[test]
fn skpn_vx_3() {
    let mut chip = Chip::new(Profile::original()).unwrap();

    chip.regs.vx[7] = 0x02_u8;

    chip.key_press(2);
    chip.key_unpress(2);
    chip.key_press(2);

    run_code(&mut chip, &[0xE7A1_u16]); // SKPN V7

    assert_eq!(chip.regs.pc, 0x202);
}

#[test]
fn ld_vx_dt_0() {
    let mut chip = Chip::new(Profile::original()).unwrap();

    chip.regs.dt = 0x20;

    run_code(&mut chip, &[0xF207_u16]); // LD V2, DT

    assert_eq!(chip.regs.vx[2], 0x20u8);
}

#[test]
fn ld_vx_k_0() {
    let mut chip = Chip::new(Profile::original()).unwrap();

    let code = [
        0xF20A_u16, // LD V2, K
    ];
    chip.ram.load_block_u16(0x200, &code).unwrap();
    chip.set_pc(0x200);
    for _ in 0..5 {
        chip.cycle().unwrap();
    }

    assert_eq!(chip.regs.pc, 0x200);
}

#[test]
fn ld_vx_k_1() {
    let mut chip = Chip::new(Profile::original()).unwrap();

    chip.key_press(0xA);
    run_code(&mut chip, &[0xF20A_u16]); // LD V2, K

    assert_eq!(chip.regs.pc, 0x202);
    assert_eq!(chip.regs.vx[2], 0xA_u8);
}

#[test]
fn ld_dt_vx_0() {
    let mut chip = Chip::new(Profile::original()).unwrap();

    chip.regs.vx[2] = 0x20u8;

    run_code(&mut chip, &[0xF215_u16]); // LD DT, V2

    assert_eq!(chip.regs.dt, 0x20u8);
}

#[test]
fn ld_st_vx_0() {
    let mut chip = Chip::new(Profile::original()).unwrap();

    chip.regs.vx[2] = 0x20u8;

    run_code(&mut chip, &[0xF218_u16]); // LD ST, V2

    assert_eq!(chip.regs.st, 0x20u8);
}

#[test]
fn add_i_vx_0() {
    let mut chip = Chip::new(Profile::original()).unwrap();

    chip.regs.i = 0x1A30u16;
    chip.regs.vx[2] = 0x22u8;

    run_code(&mut chip, &[0xF21E_u16]); // ADD I, V2

    assert_eq!(chip.regs.i, 0x1A52u16);
    assert_eq!(chip.regs.vx[2], 0x22u8);
}

#[test]
fn add_i_vx_1() {
    let mut chip = Chip::new(Profile::original()).unwrap();

    chip.regs.i = 0x1AF0u16;
    chip.regs.vx[2] = 0x22u8;

    run_code(&mut chip, &[0xF21E_u16]); // ADD I, V2

    assert_eq!(chip.regs.i, 0x1B12u16);
    assert_eq!(chip.regs.vx[2], 0x22u8);
}

#[test]
fn ld_f_vx_0() {
    let mut chip = Chip::new(Profile::original()).unwrap();

    chip.regs.vx[2] = 0x03u8;

    run_code(&mut chip, &[0xF229_u16]); // LD F, V2

    assert_eq!(chip.regs.i, chip.sprite_addr[0x03]);

    let mut s: [u8; 5] = [0; 5];
    for i in 0usize..5usize {
        let addr: u32 = (chip.regs.i + i as u16) as u32;
        s[i] = chip.ram.read_u8(addr).unwrap();
    }

    let expected: [u8; 5] = [
        // 0x3
        0b11100000,
        0b00010000,
        0b11100000,
        0b00010000,
        0b11100000
    ];
    assert_eq!(s, expected);
}

#[test]
fn ld_b_vx_0() {
    let mut chip = Chip::new(Profile::original()).unwrap();

    chip.regs.i = 0x300;
    chip.regs.vx[2] = 123u8;

    run_code(&mut chip, &[0xF233_u16]); // LD B, V2

    assert_eq!(chip.ram.mem[0x300], 1u8);
    assert_eq!(chip.ram.mem[0x301], 2u8);
    assert_eq!(chip.ram.mem[0x302], 3u8);
}

#[test]
fn ld_b_vx_1() {
    let mut chip = Chip::new(Profile::original()).unwrap();

    chip.regs.i = 0x300;
    chip.regs.vx[2] = 12u8;

    run_code(&mut chip, &[0xF233_u16]); // LD B, V2

    assert_eq!(chip.ram.mem[0x300], 0u8);
    assert_eq!(chip.ram.mem[0x301], 1u8);
    assert_eq!(chip.ram.mem[0x302], 2u8);
}

#[test]
fn ld_b_vx_2() {
    let mut chip = Chip::new(Profile::original()).unwrap();

    chip.regs.i = 0x300;
    chip.regs.vx[2] = 1u8;

    run_code(&mut chip, &[0xF233_u16]); // LD B, V2

    assert_eq!(chip.ram.mem[0x300], 0u8);
    assert_eq!(chip.ram.mem[0x301], 0u8);
    assert_eq!(chip.ram.mem[0x302], 1u8);
}

#[test]
fn ld_b_vx_3() {
    let mut chip = Chip::new(Profile::original()).unwrap();

    chip.regs.i = 0x300;
    chip.regs.vx[2] = 0u8;

    run_code(&mut chip, &[0xF233_u16]); // LD B, V2

    assert_eq!(chip.ram.mem[0x300], 0u8);
    assert_eq!(chip.ram.mem[0x301], 0u8);
    assert_eq!(chip.ram.mem[0x302], 0u8);
}

fn ld_i_vx_init_regs(c: &mut Chip) {
    for i in 0..NVREGS {
        c.regs.vx[i as usize] = (i+1) as u8;
    }
}

fn ld_i_vx_check_mem(c: &Chip, i_start: u16, idx: u32) {

    // Registers up to (including) V[idx] copied into the memory from location I.
    for i in 0..=idx {
        let addr: u32 = i_start as u32 + i as u32;
        assert_eq!(c.ram.read_u8(addr).unwrap(), c.regs.vx[i as usize]);
    }

    // Registers from V[idx + 1] are not copied into the memory.
    for i in idx+1..NVREGS {
        let addr: u32 = i_start as u32 + i as u32;
        assert_eq!(c.ram.read_u8(addr).unwrap(), 0);
    }
}

fn ld_i_vx_test(i: u32, store_i: bool) {
    let profile = if store_i { Profile::original() } else { Profile::modern() };
    let mut chip = Chip::new(profile).unwrap();

    ld_i_vx_init_regs(&mut chip);

    chip.regs.i = I;

    let mut op: u16 = 0xF055_u16;
    op = op | (i << 8) as u16;

    run_code(&mut chip, &[op]); // LD [I], V2

    ld_i_vx_check_mem(&chip, I, i);
    if store_i {
        assert_eq!(chip.regs.i, I + i as u16 + 1);
    } else {
        assert_eq!(chip.regs.i, I);
    }
}

#[test]
fn ld_i_vx_0_orig() {
    ld_i_vx_test(0, true);
}

#[test]
fn ld_i_vx_1_orig() {
    ld_i_vx_test(2, true);
}

#[test]
fn ld_i_vx_2_orig() {
    ld_i_vx_test(7, true);
}

#[test]
fn ld_i_vx_3_orig() {
    ld_i_vx_test(0xf, true);
}

#[test]
fn ld_i_vx_0_modern() {
    ld_i_vx_test(0, false);
}

#[test]
fn ld_i_vx_1_modern() {
    ld_i_vx_test(2, false);
}

#[test]
fn ld_i_vx_2_modern() {
    ld_i_vx_test(7, false);
}

#[test]
fn ld_i_vx_3_modern() {
    ld_i_vx_test(0xf, false);
}

fn ld_vx_i_init_regs(c: &mut Chip) {
    for i in 0..NVREGS {
        c.regs.vx[i as usize] = 0xFFu8;
    }
}

fn ld_vx_i_init_mem(c: &mut Chip) {
    for i in 0..NVREGS {
        let addr: u32 = c.regs.i as u32 + i as u32;
        c.ram.write_u8(addr, (i+1) as u8).unwrap();
    }
}

fn ld_vx_i_check_regs(c: &Chip, i_start: u16, idx: u32) {

    // Registers up to (including) V[idx] read from the memory from location I.
    for i in 0..=idx {
        let addr: u32 = i_start as u32 + i as u32;
        assert_eq!(c.ram.read_u8(addr).unwrap(), c.regs.vx[i as usize]);
    }

    // Registers from V[idx + 1] are not read into the memory.
    for i in idx+1..NVREGS {
        assert_eq!(c.regs.vx[i as usize], 0xFFu8);
    }
}

fn ld_vx_i_test(i: u32, store_i: bool) {
    let profile = if store_i { Profile::original() } else { Profile::modern() };
    let mut chip = Chip::new(profile).unwrap();

    chip.regs.i = I;

    ld_vx_i_init_regs(&mut chip);
    ld_vx_i_init_mem(&mut chip);

    let mut op: u16 = 0xF065_u16;
    op = op | (i << 8) as u16;

    run_code(&mut chip, &[op]); // LD [I], V2

    ld_vx_i_check_regs(&chip, I, i);
    if store_i {
        assert_eq!(chip.regs.i, I + i as u16 + 1);
    } else {
        assert_eq!(chip.regs.i, I);
    }
}

#[test]
fn ld_vx_i_0_orig() {
    ld_vx_i_test(0, true);
}

#[test]
fn ld_vx_i_1_orig() {
    ld_vx_i_test(3, true);
}


#[test]
fn ld_vx_i_2_orig() {
    ld_vx_i_test(7, true);
}

#[test]
fn ld_vx_i_3_orig() {
    ld_vx_i_test(0xF, true);
}

#[test]
fn ld_vx_i_0_modern() {
    ld_vx_i_test(0, false);
}

#[test]
fn ld_vx_i_1_modern() {
    ld_vx_i_test(3, false);
}

#[test]
fn ld_vx_i_2_modern() {
    ld_vx_i_test(7, false);
}

#[test]
fn ld_vx_i_3_modern() {
    ld_vx_i_test(0xF, false);
}

#[test]
fn add_vx_nn_0() {
    let mut chip = Chip::new(Profile::original()).unwrap();

    chip.regs.vx[2] = 0x22_u8;

    run_code(&mut chip, &[0x7215_u16]);

    assert_eq!(chip.regs.vx[2], 0x37_u8);
}

#[test]
fn add_vx_nn_1() {
    let mut chip = Chip::new(Profile::original()).unwrap();

    chip.regs.vx[2] = 0xFE_u8;

    run_code(&mut chip, &[0x7202_u16]);

    assert_eq!(chip.regs.vx[2], 0x00_u8);
}

#[test]
fn add_vx_nn_2() {
    let mut chip = Chip::new(Profile::original()).unwrap();

    chip.regs.vx[2] = 0xFF_u8;

    run_code(&mut chip, &[0x7215_u16]);

    assert_eq!(chip.regs.vx[2], 0x14_u8);
}

#[test]
fn cycle_timers_0() {
    let mut chip = Chip::new(Profile::original()).unwrap();

    chip.regs.dt = 3;
    chip.regs.st = 2;

    chip.cycle_timers();

    assert_eq!(chip.regs.dt, 2);
    assert_eq!(chip.regs.st, 1);

    chip.cycle_timers();

    assert_eq!(chip.regs.dt, 1);
    assert_eq!(chip.regs.st, 0);

    chip.cycle_timers();

    assert_eq!(chip.regs.dt, 0);
    assert_eq!(chip.regs.st, 0);

    chip.cycle_timers();

    assert_eq!(chip.regs.dt, 0);
    assert_eq!(chip.regs.st, 0);
}
