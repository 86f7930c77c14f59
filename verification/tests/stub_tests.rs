use weaklink::stub_gen::loongarch64::LoongArch64StubGenerator;
use weaklink::stub_gen::TargetOs;
use weaklink::text::append_decimal;

#[test]
fn decimal_text() {
    let mut s = String::from("x=");
    append_decimal(&mut s, 0);
    assert_eq!(s, "x=0");
    let mut s = String::new();
    append_decimal(&mut s, 1234509876);
    assert_eq!(s, "1234509876");
    let mut s = String::new();
    append_decimal(&mut s, usize::MAX);
    assert_eq!(s, usize::MAX.to_string());
}

#[test]
fn fn_stub_text() {
    let g = LoongArch64StubGenerator::new(TargetOs::Linux);
    assert_eq!(g.target_os(), TargetOs::Linux);
    let mut text = String::from("stub:\n");
    g.write_fn_stub(&mut text, "symtab", 3);
    assert_eq!(
        text,
        "stub:\n    la.global $r12, symtab\n    addu16i.d $r12, $r12, 24\n    jirl $r0, $r12, 0\n"
    );
}

#[test]
fn jmp_binder_text() {
    let g = LoongArch64StubGenerator::new(TargetOs::Linux);
    let mut text = String::new();
    g.write_jmp_binder(&mut text, 17, "binder");
    assert_eq!(text, "    li.d $a0, 17\n    b binder\n");
}

#[test]
fn binder_stub_text() {
    let g = LoongArch64StubGenerator::new(TargetOs::Linux);
    let mut text = String::new();
    g.write_binder_stub(&mut text, "lazy_resolve");
    let lines: Vec<&str> = text.lines().collect();
    assert_eq!(lines.len(), 44);
    assert_eq!(lines[0], "    .cfi_startproc");
    assert_eq!(lines[1], "    addi.d $sp, $sp, -144");
    assert_eq!(lines[2], "    st.d $ra, $sp, 136");
    assert_eq!(lines[19], "    st.d $t8, $sp, 0");
    assert_eq!(lines[20], "    move $a0, $r21");
    assert_eq!(lines[21], "    bl lazy_resolve");
    assert_eq!(lines[22], "    move $r21, $a0");
    assert_eq!(lines[40], "    ld.d $ra, $sp, 136");
    assert_eq!(lines[41], "    addi.d $sp, $sp, 144");
    assert_eq!(lines[42], "    jirl $r0, $r21, 0");
    assert_eq!(lines[43], "    .cfi_endproc");
    assert!(text.ends_with("    .cfi_endproc\n"));
}
