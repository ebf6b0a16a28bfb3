use empu::{
    assemble, disassemble, Address, AssembleError, DisassembleError, Instruction, Source, Unit,
    Usd,
};

fn decode_all(bytes: Vec<u8>) -> Vec<Result<Instruction, DisassembleError>> {
    let mut it = disassemble(bytes);
    let mut out = Vec::new();
    while let Some(r) = it.next() {
        out.push(r);
    }
    out
}

#[test]
fn test_mov_add_sub_mul_div() {
    let (binary, _) = assemble(&[
        Instruction::Mov(Usd {
            unit: Unit::Byte,
            source: Source::Value(123),
            destination: Address {
                location: 0xBEEF,
                depth: 1,
            },
        }),
        Instruction::Add(Usd {
            unit: Unit::Word,
            source: Source::Value(33),
            destination: Address {
                location: 0xDEAD,
                depth: 3,
            },
        }),
        Instruction::Sub(Usd {
            unit: Unit::Word,
            source: Source::Value(33),
            destination: Address {
                location: 0xDEAD,
                depth: 3,
            },
        }),
        Instruction::Mul(Usd {
            unit: Unit::Word,
            source: Source::Value(33),
            destination: Address {
                location: 0xDEAD,
                depth: 3,
            },
        }),
        Instruction::Div(Usd {
            unit: Unit::Dword,
            source: Source::Value(127),
            destination: Address {
                location: 0xBABE,
                depth: 2,
            },
        }),
    ])
    .unwrap();
    let disas = decode_all(binary);
    assert_eq!(
        Instruction::Mov(Usd {
            unit: Unit::Byte,
            source: Source::Value(123),
            destination: Address {
                location: 0xBEEF,
                depth: 1,
            },
        }),
        *disas[0].as_ref().unwrap()
    );
    assert_eq!(
        Instruction::Add(Usd {
            unit: Unit::Word,
            source: Source::Value(33),
            destination: Address {
                location: 0xDEAD,
                depth: 3,
            },
        }),
        *disas[1].as_ref().unwrap()
    );
    assert_eq!(
        Instruction::Sub(Usd {
            unit: Unit::Word,
            source: Source::Value(33),
            destination: Address {
                location: 0xDEAD,
                depth: 3,
            },
        }),
        *disas[2].as_ref().unwrap()
    );
    assert_eq!(
        Instruction::Mul(Usd {
            unit: Unit::Word,
            source: Source::Value(33),
            destination: Address {
                location: 0xDEAD,
                depth: 3,
            },
        }),
        *disas[3].as_ref().unwrap()
    );
    assert_eq!(
        Instruction::Div(Usd {
            unit: Unit::Dword,
            source: Source::Value(127),
            destination: Address {
                location: 0xBABE,
                depth: 2,
            },
        }),
        *disas[4].as_ref().unwrap()
    );
    assert_eq!(disas.len(), 5);
}

#[test]
fn test_cmp() {
    let (binary, _) = assemble(&[
        Instruction::Cmp(Usd {
            unit: Unit::Byte,
            source: Source::Value(123),
            destination: Address {
                location: 0xBEEF,
                depth: 3,
            },
        }),
        Instruction::Cmp(Usd {
            unit: Unit::Byte,
            source: Source::Pointer(Address {
                location: 0xDEAD,
                depth: 2,
            }),
            destination: Address {
                location: 0xBEEF,
                depth: 1,
            },
        }),
    ])
    .unwrap();
    let disas = decode_all(binary);
    assert_eq!(
        Instruction::Cmp(Usd {
            unit: Unit::Byte,
            source: Source::Value(123),
            destination: Address {
                location: 0xBEEF,
                depth: 3,
            },
        }),
        *disas[0].as_ref().unwrap()
    );
    assert_eq!(
        Instruction::Cmp(Usd {
            unit: Unit::Byte,
            source: Source::Pointer(Address {
                location: 0xDEAD,
                depth: 2,
            }),
            destination: Address {
                location: 0xBEEF,
                depth: 1,
            },
        }),
        *disas[1].as_ref().unwrap()
    );
    assert_eq!(disas.len(), 2);
}

#[test]
fn test_jg_je_jl_jmp() {
    let (binary, _) = assemble(&[
        Instruction::Jg(Address {
            location: 0x100,
            depth: 0,
        }),
        Instruction::Je(Address {
            location: 0x100,
            depth: 1,
        }),
        Instruction::Jl(Address {
            location: 0x100,
            depth: 2,
        }),
        Instruction::Jmp(Address {
            location: 0x100,
            depth: 3,
        }),
    ])
    .unwrap();
    let disas = decode_all(binary);
    assert_eq!(
        Instruction::Jg(Address {
            location: 0x100,
            depth: 0,
        }),
        *disas[0].as_ref().unwrap()
    );
    assert_eq!(
        Instruction::Je(Address {
            location: 0x100,
            depth: 1,
        }),
        *disas[1].as_ref().unwrap()
    );
    assert_eq!(
        Instruction::Jl(Address {
            location: 0x100,
            depth: 2,
        }),
        *disas[2].as_ref().unwrap()
    );
    assert_eq!(
        Instruction::Jmp(Address {
            location: 0x100,
            depth: 3,
        }),
        *disas[3].as_ref().unwrap()
    );
    assert_eq!(disas.len(), 4);
}

#[test]
fn test_and_or_xor_not_shl_shr() {
    let (binary, _) = assemble(&[
        Instruction::And(Usd {
            unit: Unit::Dword,
            source: Source::Value(0xBEEF),
            destination: Address {
                location: 0x100,
                depth: 0,
            },
        }),
        Instruction::Or(Usd {
            unit: Unit::Dword,
            source: Source::Value(0xBEEF),
            destination: Address {
                location: 0x100,
                depth: 1,
            },
        }),
        Instruction::Xor(Usd {
            unit: Unit::Dword,
            source: Source::Value(0xBEEF),
            destination: Address {
                location: 0x100,
                depth: 2,
            },
        }),
        Instruction::Not(Usd {
            unit: Unit::Dword,
            source: Source::Value(0xBEEF),
            destination: Address {
                location: 0x100,
                depth: 3,
            },
        }),
        Instruction::Shl(Usd {
            unit: Unit::Dword,
            source: Source::Pointer(Address {
                location: 0x102,
                depth: 0,
            }),
            destination: Address {
                location: 0x100,
                depth: 3,
            },
        }),
        Instruction::Shr(Usd {
            unit: Unit::Dword,
            source: Source::Pointer(Address {
                location: 0x102,
                depth: 1,
            }),
            destination: Address {
                location: 0x100,
                depth: 2,
            },
        }),
    ])
    .unwrap();
    let disas = decode_all(binary);
    assert_eq!(
        Instruction::And(Usd {
            unit: Unit::Dword,
            source: Source::Value(0xBEEF),
            destination: Address {
                location: 0x100,
                depth: 0,
            },
        }),
        *disas[0].as_ref().unwrap()
    );
    assert_eq!(
        Instruction::Or(Usd {
            unit: Unit::Dword,
            source: Source::Value(0xBEEF),
            destination: Address {
                location: 0x100,
                depth: 1,
            },
        }),
        *disas[1].as_ref().unwrap()
    );
    assert_eq!(
        Instruction::Xor(Usd {
            unit: Unit::Dword,
            source: Source::Value(0xBEEF),
            destination: Address {
                location: 0x100,
                depth: 2,
            },
        }),
        *disas[2].as_ref().unwrap()
    );
    assert_eq!(
        Instruction::Not(Usd {
            unit: Unit::Dword,
            source: Source::Value(0xBEEF),
            destination: Address {
                location: 0x100,
                depth: 3,
            },
        }),
        *disas[3].as_ref().unwrap()
    );
    assert_eq!(
        Instruction::Shl(Usd {
            unit: Unit::Dword,
            source: Source::Pointer(Address {
                location: 0x102,
                depth: 0,
            }),
            destination: Address {
                location: 0x100,
                depth: 3,
            },
        }),
        *disas[4].as_ref().unwrap()
    );
    assert_eq!(
        Instruction::Shr(Usd {
            unit: Unit::Dword,
            source: Source::Pointer(Address {
                location: 0x102,
                depth: 1,
            }),
            destination: Address {
                location: 0x100,
                depth: 2,
            },
        }),
        *disas[5].as_ref().unwrap()
    );
    assert_eq!(disas.len(), 6);
}

#[test]
fn width_truncation_byte() {
    let mut out = Vec::new();
    Instruction::Mov(Usd {
        unit: Unit::Byte,
        source: Source::Value(0x1FF),
        destination: Address {
            location: 0x1234,
            depth: 2,
        },
    })
    .assemble(&mut out)
    .unwrap();
    assert_eq!(out, vec![0x01, 0x08, 0x12, 0x34, 0xFF]);
}

#[test]
fn width_truncation_word() {
    let mut out = Vec::new();
    Instruction::Mov(Usd {
        unit: Unit::Word,
        source: Source::Value(0x1ABCD),
        destination: Address {
            location: 0x1234,
            depth: 2,
        },
    })
    .assemble(&mut out)
    .unwrap();
    assert_eq!(out, vec![0x05, 0x08, 0x12, 0x34, 0xAB, 0xCD]);
}

#[test]
fn width_truncation_dword() {
    let mut out = Vec::new();
    Instruction::Mov(Usd {
        unit: Unit::Dword,
        source: Source::Value(0xDEADBEEF),
        destination: Address {
            location: 0x1234,
            depth: 2,
        },
    })
    .assemble(&mut out)
    .unwrap();
    assert_eq!(out, vec![0x09, 0x08, 0x12, 0x34, 0xDE, 0xAD, 0xBE, 0xEF]);
}

#[test]
fn cmp_exact_bytes() {
    let mut out = Vec::new();
    Instruction::Cmp(Usd {
        unit: Unit::Byte,
        source: Source::Value(0x7B),
        destination: Address {
            location: 0xBEEF,
            depth: 3,
        },
    })
    .assemble(&mut out)
    .unwrap();
    assert_eq!(out, vec![0x13, 0x80, 0xBE, 0xEF, 0x7B]);
}

#[test]
fn jump_exact_bytes() {
    let mut out = Vec::new();
    Instruction::Jmp(Address {
        location: 0x1000,
        depth: 1,
    })
    .assemble(&mut out)
    .unwrap();
    assert_eq!(out, vec![0x2D, 0x10, 0x00]);
}

#[test]
fn and_exact_bytes() {
    let mut out = Vec::new();
    Instruction::And(Usd {
        unit: Unit::Dword,
        source: Source::Value(0xBEEF),
        destination: Address {
            location: 0x100,
            depth: 0,
        },
    })
    .assemble(&mut out)
    .unwrap();
    assert_eq!(out, vec![0x40, 0x81, 0x01, 0x00, 0x00, 0x00, 0xBE, 0xEF]);
}

#[test]
fn assembly_map_is_contiguous() {
    let program = [
        Instruction::Jmp(Address {
            location: 0x1000,
            depth: 1,
        }),
        Instruction::Mov(Usd {
            unit: Unit::Byte,
            source: Source::Value(7),
            destination: Address {
                location: 0x10,
                depth: 0,
            },
        }),
        Instruction::Cmp(Usd {
            unit: Unit::Word,
            source: Source::Pointer(Address {
                location: 0x20,
                depth: 2,
            }),
            destination: Address {
                location: 0x30,
                depth: 1,
            },
        }),
    ];
    let (binary, map) = assemble(&program).unwrap();
    assert_eq!(map.len(), 3);
    let r0 = map[&0];
    let r1 = map[&1];
    let r2 = map[&2];
    assert_eq!(r0, (0, 3));
    assert_eq!(r1, (3, 8));
    assert_eq!(r2, (8, 14));
    assert_eq!(r0.1, r1.0);
    assert_eq!(r1.1, r2.0);
    assert_eq!(r2.1, binary.len());
}

#[test]
fn address_depth_is_rejected_above_three() {
    assert_eq!(Address::new(0x10, 4), None);
    assert_eq!(Address::new(0x10, 255), None);
    assert_eq!(
        Address::new(0x10, 3),
        Some(Address {
            location: 0x10,
            depth: 3,
        })
    );
    assert_eq!(
        Address::new(0xFFFF, 0),
        Some(Address {
            location: 0xFFFF,
            depth: 0,
        })
    );
}

#[test]
fn decoded_depths_stay_in_range() {
    // The depth fields are two bits wide, so whatever bytes come in, a
    // decoded address's depth is at most 3.
    let samples: Vec<Vec<u8>> = vec![
        vec![0x01, 0xFF, 0x12, 0x34, 0xFF],
        vec![0x13, 0x80, 0xBE, 0xEF, 0x7B],
        vec![0x2F, 0x10, 0x00],
        vec![0x40, 0xB1, 0x01, 0x00, 0x00, 0x00, 0xBE, 0xEF],
    ];
    for bytes in samples {
        for r in decode_all(bytes) {
            if let Ok(ins) = r {
                if let Some(usd) = ins.usd() {
                    assert!(usd.destination.depth <= 3);
                    if let Source::Pointer(adr) = &usd.source {
                        assert!(adr.depth <= 3);
                    }
                }
                if let Some(adr) = ins.address() {
                    assert!(adr.depth <= 3);
                }
            }
        }
    }
}

#[test]
fn interrupt_family_is_not_encodable() {
    let mut out = vec![0xAAu8];
    assert_eq!(
        Instruction::Int(5).assemble(&mut out),
        Err(AssembleError::UnsupportedInstruction)
    );
    assert_eq!(
        Instruction::Iret.assemble(&mut out),
        Err(AssembleError::UnsupportedInstruction)
    );
    assert_eq!(out, vec![0xAA]);
    assert_eq!(
        assemble(&[Instruction::Int(5)]),
        Err(AssembleError::UnsupportedInstruction)
    );
}

#[test]
fn undefined_families_decode_as_invalid() {
    // 0xF0 is no family; decoding skips it and goes on at the next byte.
    let disas = decode_all(vec![0xF0, 0x2C, 0x10, 0x00]);
    assert_eq!(disas.len(), 2);
    assert_eq!(disas[0], Err(DisassembleError::InvalidInstruction));
    assert_eq!(
        disas[1],
        Ok(Instruction::Jmp(Address {
            location: 0x1000,
            depth: 0,
        }))
    );
    // The reserved interrupt family id decodes as invalid too.
    let disas = decode_all(vec![0x30]);
    assert_eq!(disas, vec![Err(DisassembleError::InvalidInstruction)]);
}

#[test]
fn truncated_input_reports_not_enough_data() {
    // A valid first byte whose operands are cut off ends the stream with
    // one NotEnoughData element.
    let disas = decode_all(vec![0x01, 0x08, 0x12]);
    assert_eq!(disas, vec![Err(DisassembleError::NotEnoughData)]);
    assert_eq!(decode_all(vec![]), vec![]);
}

#[test]
fn getters_expose_the_operands() {
    let usd = Usd {
        unit: Unit::Word,
        source: Source::Pointer(Address {
            location: 0x20,
            depth: 2,
        }),
        destination: Address {
            location: 0x30,
            depth: 1,
        },
    };
    let ins = Instruction::Xor(usd);
    assert_eq!(ins.instr_str(), "xor");
    assert_eq!(ins.usd().unwrap().destination.location, 0x30);
    assert_eq!(ins.address(), None);
    let jmp = Instruction::Jmp(Address {
        location: 0x40,
        depth: 0,
    });
    assert_eq!(jmp.instr_str(), "jmp");
    assert_eq!(jmp.usd(), None);
    assert_eq!(
        jmp.address(),
        Some(&Address {
            location: 0x40,
            depth: 0,
        })
    );
    assert_eq!(Unit::Byte.id(), 0);
    assert_eq!(Unit::Word.id(), 1);
    assert_eq!(Unit::Dword.id(), 2);
    assert_eq!(Unit::Byte.num_bytes(), 1);
    assert_eq!(Unit::Word.num_bytes(), 2);
    assert_eq!(Unit::Dword.num_bytes(), 4);
    assert_eq!(Source::Value(1).id(), 1);
    assert_eq!(Source::Pointer(Address { location: 0, depth: 3 }).id(), 0);
    assert_eq!(Source::Value(1).depth(), None);
    assert_eq!(
        Source::Pointer(Address { location: 0, depth: 3 }).depth(),
        Some(3)
    );
}

#[test]
fn format_asm_renders_assembly_text() {
    assert_eq!(
        Instruction::Mov(Usd {
            unit: Unit::Byte,
            source: Source::Value(123),
            destination: Address {
                location: 0xBEEF,
                depth: 1,
            },
        })
        .format_asm(),
        "MOV byte @0xBEEF, 0x7B"
    );
    assert_eq!(
        Instruction::Shl(Usd {
            unit: Unit::Dword,
            source: Source::Pointer(Address {
                location: 0x102,
                depth: 1,
            }),
            destination: Address {
                location: 0x100,
                depth: 2,
            },
        })
        .format_asm(),
        "SHL dword @@0x100, @0x102"
    );
    assert_eq!(
        Instruction::Jmp(Address {
            location: 0x1000,
            depth: 0,
        })
        .format_asm(),
        "JMP 0x1000"
    );
    assert_eq!(
        Instruction::Jg(Address {
            location: 0,
            depth: 3,
        })
        .format_asm(),
        "JG @@@0x0"
    );
    assert_eq!(Instruction::Iret.format_asm(), "IRET");
    assert_eq!(Instruction::Int(5).format_asm(), "INT");
}
