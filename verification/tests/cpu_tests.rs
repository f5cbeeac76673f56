use chip8::cpu::Cpu;

#[test]
fn test_loading_bytes_from_vector() {
    let data = vec![0x1, 0x2, 0x3, 0x4];
    let mut cpu = Cpu::new();
    let mut results = [0; 4096];
    for (index, &byte) in data.iter().enumerate() {
        results[index] = byte;
    }
    cpu.load_bytes(data);
    for i in 0..4096 {
        assert_eq!(results[i], cpu.memory[i])
    }
}

#[test]
fn test_fetching_opcode() {
    let data = vec![1, 1];
    let mut cpu = Cpu::new();
    Cpu::load_data(&mut cpu, data);
    cpu.fetch_opcode();
    assert_eq!(257, cpu.opcode)
}

#[test]
fn test_op_cls() {
    let mut cpu = Cpu::new();
    cpu.disp_buff = [[true; 64]; 32];
    cpu.op_cls();
    for i in 0..32 {
        for ii in 0..64 {
            assert_eq!(false, cpu.disp_buff[i][ii])
        }
    }
}

#[test]
fn test_execute_ret() {
    let mut cpu = Cpu::new();

    // Load the following program into the CPU.
    // 0x200: 00E0
    // 0x202: 2386
    // 0x386: 00EE
    Cpu::load_data(&mut cpu, vec![0x00, 0xE0, 0x23, 0x86]);
    cpu.memory[0x386] = 0x00;
    cpu.memory[0x387] = 0xEE;
    for _ in 0..3 {
        let _ = cpu.emulate_cycle();
    }
    assert_eq!(cpu.pc, 0x204);
    assert_eq!(cpu.sp, 0);
    assert_eq!(cpu.stack[0], 0x202);
}

#[test]
fn test_op_jp() {
    let mut cpu = Cpu::new();
    cpu.opcode = 0x1386;
    cpu.op_jp();
    assert_eq!(cpu.pc, 0x386);
}

#[test]
fn test_execute_jp() {
    let mut cpu = Cpu::new();
    Cpu::load_data(&mut cpu, vec![0x13, 0x86]);
    let _ = cpu.emulate_cycle();
    assert_eq!(cpu.pc, 0x386);
}

#[test]
fn test_execute_call() {
    let mut cpu = Cpu::new();
    Cpu::load_data(&mut cpu, vec![0x00, 0xE0, 0x23, 0x86]);
    let _ = cpu.emulate_cycle();
    let _ = cpu.emulate_cycle();
    assert_eq!(cpu.pc, 0x386);
    assert_eq!(cpu.sp, 1);
    assert_eq!(cpu.stack[0], 0x202);
}

#[test]
fn test_se_if_true() {
    let mut cpu = Cpu::new();
    cpu.v[3] = 0x88;
    Cpu::load_data(&mut cpu, vec![0x33, 0x88]);
    let _ = cpu.emulate_cycle();
    assert_eq!(cpu.pc, 0x200 + 4);
}

#[test]
fn test_se_if_false() {
    let mut cpu = Cpu::new();
    cpu.v[3] = 0x84;
    Cpu::load_data(&mut cpu, vec![0x33, 0x88]);
    let _ = cpu.emulate_cycle();
    assert_eq!(cpu.pc, 0x200 + 2);
}

#[test]
fn test_sne_if_true() {
    let mut cpu = Cpu::new();
    cpu.v[3] = 0x84;
    Cpu::load_data(&mut cpu, vec![0x43, 0x88]);
    let _ = cpu.emulate_cycle();
    assert_eq!(cpu.pc, 0x200 + 4);
}

#[test]
fn test_sne_if_false() {
    let mut cpu = Cpu::new();
    cpu.v[3] = 0x88;
    Cpu::load_data(&mut cpu, vec![0x43, 0x88]);
    let _ = cpu.emulate_cycle();
    assert_eq!(cpu.pc, 0x200 + 2);
}

#[test]
fn test_se_vs_if_true() {
    let mut cpu = Cpu::new();
    cpu.v[3] = 0x88;
    cpu.v[6] = 0x88;
    Cpu::load_data(&mut cpu, vec![0x53, 0x60]);
    let _ = cpu.emulate_cycle();
    assert_eq!(cpu.pc, 0x200 + 4);
}

#[test]
fn test_se_vs_if_false() {
    let mut cpu = Cpu::new();
    cpu.v[3] = 0x84;
    cpu.v[6] = 0x88;
    Cpu::load_data(&mut cpu, vec![0x33, 0x60]);
    let _ = cpu.emulate_cycle();
    assert_eq!(cpu.pc, 0x200 + 2);
}

#[test]
fn test_ld_vx_byte() {
    let mut cpu = Cpu::new();
    Cpu::load_data(&mut cpu, vec![0x63, 0x92]);
    let _ = cpu.emulate_cycle();
    assert_eq!(cpu.v[3], 0x92);
}

#[test]
fn test_add_vx_byte() {
    let mut cpu = Cpu::new();
    Cpu::load_data(&mut cpu, vec![0x73, 0x10]);
    cpu.v[3] = 0x70;
    let _ = cpu.emulate_cycle();
    assert_eq!(cpu.v[3], 0x10 + 0x70);
}

#[test]
fn test_add_vx_byte_overflow() {
    let mut cpu = Cpu::new();
    Cpu::load_data(&mut cpu, vec![0x73, 0x01]);
    cpu.v[3] = 0xff;
    let _ = cpu.emulate_cycle();
    assert_eq!(cpu.v[3], 0);
}

#[test]
fn test_ld_vx_vy() {
    let mut cpu = Cpu::new();
    Cpu::load_data(&mut cpu, vec![0x83, 0x70]);
    cpu.v[7] = 0x82;
    let _ = cpu.emulate_cycle();
    assert_eq!(cpu.v[3], 0x82);
}

#[test]
fn test_or() {
    let mut cpu = Cpu::new();
    Cpu::load_data(&mut cpu, vec![0x80, 0xA1]);
    cpu.v[0] = 0b10110011;
    cpu.v[0xA] = 0b01101001;
    //      OR = 0b11111011
    let _ = cpu.emulate_cycle();
    assert_eq!(cpu.v[0], 0b11111011);
}

#[test]
fn test_and() {
    let mut cpu = Cpu::new();
    Cpu::load_data(&mut cpu, vec![0x8B, 0xA2]);
    cpu.v[0xB] = 0b10110011;
    cpu.v[0xA] = 0b01101001;
    //     AND = 0b00100001;
    let _ = cpu.emulate_cycle();
    assert_eq!(cpu.v[0xB], 0b00100001);
}

#[test]
fn test_xor() {
    let mut cpu = Cpu::new();
    Cpu::load_data(&mut cpu, vec![0x8B, 0xA3]);
    cpu.v[0xB] = 0b10110011;
    cpu.v[0xA] = 0b01101001;
    //     XOR = 0b11011010;
    let _ = cpu.emulate_cycle();
    assert_eq!(cpu.v[0xB], 0b11011010);
}

#[test]
fn test_add_vx_vy() {
    let mut cpu = Cpu::new();
    Cpu::load_data(&mut cpu, vec![0x8A, 0xB4]);
    cpu.v[0xA] = 0x5;
    cpu.v[0xB] = 0x3;
    let _ = cpu.emulate_cycle();
    assert_eq!(cpu.v[0xA], 0x8);
    assert_eq!(cpu.v[0xF], 0);
}

#[test]
fn test_add_vx_vy_overflow() {
    let mut cpu = Cpu::new();
    Cpu::load_data(&mut cpu, vec![0x8A, 0xB4]);
    cpu.v[0xA] = 0xFF;
    cpu.v[0xB] = 0x1;
    let _ = cpu.emulate_cycle();
    assert_eq!(cpu.v[0xA], 0);
    assert_eq!(cpu.v[0xF], 1);
}

#[test]
fn test_sub_vx_vy() {
    let mut cpu = Cpu::new();
    Cpu::load_data(&mut cpu, vec![0x8A, 0xB5]);
    cpu.v[0xA] = 5;
    cpu.v[0xB] = 1;
    let _ = cpu.emulate_cycle();
    assert_eq!(cpu.v[0xA], 4);
    assert_eq!(cpu.v[0xF], 1);
}

#[test]
fn test_sub_vx_vy_overflow() {
    let mut cpu = Cpu::new();
    Cpu::load_data(&mut cpu, vec![0x8A, 0xB5]);
    cpu.v[0xA] = 0;
    cpu.v[0xB] = 1;
    let _ = cpu.emulate_cycle();
    assert_eq!(cpu.v[0xA], 255);
    assert_eq!(cpu.v[0xF], 0);
}

#[test]
fn test_shr_shift_x() {
    let mut cpu = Cpu::new();
    Cpu::load_data(&mut cpu, vec![0x84, 0x46]);
    cpu.v[4] = 0b11;
    let _ = cpu.emulate_cycle();
    assert_eq!(cpu.v[4], 1);
}

#[test]
fn test_shr_shift_y_to_x() {
    let mut cpu = Cpu::new();
    Cpu::load_data(&mut cpu, vec![0x84, 0x56]);
    cpu.v[5] = 0b10;
    let _ = cpu.emulate_cycle();
    assert_eq!(cpu.v[4], 1);
}

#[test]
fn test_shr_carry_0() {
    let mut cpu = Cpu::new();
    Cpu::load_data(&mut cpu, vec![0x84, 0x46]);
    cpu.v[4] = 0b10;
    let _ = cpu.emulate_cycle();
    assert_eq!(cpu.v[0xf], 0);
}

#[test]
fn test_shr_carry_1() {
    let mut cpu = Cpu::new();
    Cpu::load_data(&mut cpu, vec![0x84, 0x46]);
    cpu.v[4] = 0b11;
    let _ = cpu.emulate_cycle();
    assert_eq!(cpu.v[0xf], 1);
}

#[test]
fn test_subn_vx_vy() {
    let mut cpu = Cpu::new();
    Cpu::load_data(&mut cpu, vec![0x84, 0x57]);
    cpu.v[0x4] = 1;
    cpu.v[0x5] = 5;
    let _ = cpu.emulate_cycle();
    assert_eq!(cpu.v[0x4], 4);
    assert_eq!(cpu.v[0xF], 1);
}

#[test]
fn test_subn_vx_vy_overflow() {
    let mut cpu = Cpu::new();
    Cpu::load_data(&mut cpu, vec![0x84, 0x57]);
    cpu.v[0x4] = 1;
    cpu.v[0x5] = 0;
    let _ = cpu.emulate_cycle();
    assert_eq!(cpu.v[0x4], 255);
    assert_eq!(cpu.v[0xF], 0);
}

#[test]
fn test_shl_shift_x() {
    let mut cpu = Cpu::new();
    Cpu::load_data(&mut cpu, vec![0x84, 0x4E]);
    cpu.v[4] = 0b01;
    let _ = cpu.emulate_cycle();
    assert_eq!(cpu.v[4], 0b10);
}

#[test]
fn test_shl_shift_y_to_x() {
    let mut cpu = Cpu::new();
    Cpu::load_data(&mut cpu, vec![0x84, 0x5E]);
    cpu.v[5] = 0b10;
    let _ = cpu.emulate_cycle();
    assert_eq!(cpu.v[4], 0b100);
}

#[test]
fn test_shl_carry_0() {
    let mut cpu = Cpu::new();
    Cpu::load_data(&mut cpu, vec![0x84, 0x4E]);
    cpu.v[4] = 0b1;
    let _ = cpu.emulate_cycle();
    assert_eq!(cpu.v[0xf], 0);
}

#[test]
fn test_shl_carry_1() {
    let mut cpu = Cpu::new();
    Cpu::load_data(&mut cpu, vec![0x84, 0x4E]);
    cpu.v[4] = 0b11000000;
    let _ = cpu.emulate_cycle();
    assert_eq!(cpu.v[0xf], 1);
}

#[test]
fn test_sne_vx_vy_if_equal() {
    let mut cpu = Cpu::new();
    Cpu::load_data(&mut cpu, vec![0x93, 0x40]);
    cpu.v[3] = 0x88;
    cpu.v[4] = 0x88;
    let _ = cpu.emulate_cycle();
    assert_eq!(cpu.pc, 0x200 + 2);
}

#[test]
fn test_sne_vx_vy_if_not_equal() {
    let mut cpu = Cpu::new();
    Cpu::load_data(&mut cpu, vec![0x93, 0x40]);
    cpu.v[3] = 0x88;
    cpu.v[4] = 0x87;
    let _ = cpu.emulate_cycle();
    assert_eq!(cpu.pc, 0x200 + 4);
}

#[test]
fn test_ld_i_addr() {
    let mut cpu = Cpu::new();
    Cpu::load_data(&mut cpu, vec![0xAA, 0xAA]);
    let _ = cpu.emulate_cycle();
    assert_eq!(cpu.i, 0xAAA);
}

#[test]
fn test_op_jp_v0_addr() {
    let mut cpu = Cpu::new();
    Cpu::load_data(&mut cpu, vec![0xB3, 0x86]);
    cpu.v[0] = 0x25;
    let _ = cpu.emulate_cycle();
    assert_eq!(cpu.pc, 0x386 + 0x25);
}

#[test]
fn test_rnd_vx_byte_masks_binary() {
    let mut cpu = Cpu::new();
    Cpu::load_data(&mut cpu, vec![0xC3, 0x01]);
    cpu.v[3] = 2;
    let _ = cpu.emulate_cycle();
    assert!(cpu.v[3] <= 1);
}

#[test]
fn test_drw_vx_vy_n_erases() {
    let mut cpu = Cpu::new();
    Cpu::load_data(
        &mut cpu,
        vec![0x62, 0x02, 0x63, 0x03, 0xF3, 0x29, 0xD2, 0x35, 0xD2, 0x35],
    );
    for _ in 0..5 {
        let _ = cpu.emulate_cycle();
    }

    let empty_disp = [[false; 64]; 32];
    for i in 0..32 {
        for ii in 0..64 {
            assert_eq!(cpu.disp_buff[i][ii], empty_disp[i][ii]);
        }
    }
}

#[test]
fn test_drw_vx_vy_n_sets_flip() {
    let mut cpu = Cpu::new();
    Cpu::load_data(
        &mut cpu,
        vec![0x62, 0x02, 0x63, 0x03, 0xF3, 0x29, 0xD2, 0x35, 0xD2, 0x35],
    );
    for _ in 0..5 {
        let _ = cpu.emulate_cycle();
    }

    assert_eq!(cpu.v[0xF], 1);
}

#[test]
fn test_drw_vx_vy_n_unsets_flip() {
    let mut cpu = Cpu::new();
    Cpu::load_data(
        &mut cpu,
        vec![0x62, 0x02, 0x63, 0x03, 0xF3, 0x29, 0xD2, 0x35, 0xD2, 0x35, 0xD2, 0x35],
    );
    for _ in 0..6 {
        let _ = cpu.emulate_cycle();
    }

    assert_eq!(cpu.v[0xF], 0);
}

#[test]
fn test_skp_vx_if_pressed() {
    let mut cpu = Cpu::new();
    Cpu::load_data(&mut cpu, vec![0xE0, 0x9E]);
    cpu.key_buff[0] = true;
    let _ = cpu.emulate_cycle();
    assert_eq!(cpu.pc, 0x204);
}

#[test]
fn test_skp_vx_if_not_pressed() {
    let mut cpu = Cpu::new();
    Cpu::load_data(&mut cpu, vec![0xE0, 0x9E]);
    let _ = cpu.emulate_cycle();
    assert_eq!(cpu.pc, 0x202);
}

#[test]
fn test_sknp_vx_if_pressed() {
    let mut cpu = Cpu::new();
    Cpu::load_data(&mut cpu, vec![0xE0, 0xA1]);
    cpu.key_buff[0] = true;
    let _ = cpu.emulate_cycle();
    assert_eq!(cpu.pc, 0x202);
}

#[test]
fn test_sknp_vx_if_not_pressed() {
    let mut cpu = Cpu::new();
    Cpu::load_data(&mut cpu, vec![0xE0, 0xA1]);
    let _ = cpu.emulate_cycle();
    assert_eq!(cpu.pc, 0x204);
}

#[test]
fn test_ld_b_vx() {
    let mut cpu = Cpu::new();
    cpu.i = 0x500;
    cpu.v[0] = 136;
    Cpu::load_data(&mut cpu, vec![0xF0, 0x33]);
    let _ = cpu.emulate_cycle();
    println!("");
    println!("0x500: {}", cpu.memory[0x500]);
    println!("0x501: {}", cpu.memory[0x501]);
    println!("0x502: {}", cpu.memory[0x502]);
    assert_eq!(cpu.memory[0x500], 1);
    assert_eq!(cpu.memory[0x501], 3);
    assert_eq!(cpu.memory[0x502], 6);
}

#[test]
fn test_ld_vx_i() {
    let mut cpu = Cpu::new();
    cpu.i = 0x500;
    cpu.memory[0x500] = 0;
    cpu.memory[0x501] = 1;
    cpu.memory[0x502] = 2;
    cpu.memory[0x503] = 3;
    Cpu::load_data(&mut cpu, vec![0xF3, 0x65]);
    let _ = cpu.emulate_cycle();
    assert_eq!(cpu.v[0], 0);
    assert_eq!(cpu.v[1], 1);
    assert_eq!(cpu.v[2], 2);
    assert_eq!(cpu.v[3], 3);
}

#[test]
fn test_ld_i_vx() {
    let mut cpu = Cpu::new();
    cpu.i = 0x500;
    cpu.v[0] = 0;
    cpu.v[1] = 1;
    cpu.v[2] = 2;
    Cpu::load_data(&mut cpu, vec![0xF2, 0x55]);
    let _ = cpu.emulate_cycle();
    assert_eq!(cpu.memory[0x500], 0);
    assert_eq!(cpu.memory[0x501], 1);
    assert_eq!(cpu.memory[0x502], 2);
}

#[test]
fn test_ld_dt_vx() {
    let mut cpu = Cpu::new();
    cpu.v[3] = 0x20;
    Cpu::load_data(&mut cpu, vec![0xF3, 0x15]);
    let _ = cpu.emulate_cycle();
    assert_eq!(cpu.delay_timer, 0x20);
}

#[test]
fn test_ld_vx_k() {
    let cpu = &mut Cpu::new();
    Cpu::load_data(cpu, vec![0xFF, 0x0A]);
    let _ = cpu.emulate_cycle();
    assert_eq!(cpu.pc, 0x200);
    cpu.key_buff[3] = true;
    let _ = cpu.emulate_cycle();
    assert_eq!(cpu.v[0xF], 3);
}
