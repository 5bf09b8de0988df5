use chibicc::codegen::writer::Codegen;

#[test]
fn new_buffer_is_empty() {
    let g = Codegen::new();
    assert_eq!(g.buf, "");
    assert_eq!(g.depth, 0);
}

#[test]
fn write_and_writeln_append() {
    let mut g = Codegen::new();
    g.write("a");
    g.write("");
    g.writeln("b:");
    g.iwrite("c");
    g.iwriteln("d");
    assert_eq!(g.buf, "ab:\n  c  d\n");
    assert_eq!(g.depth, 0);
}

#[test]
fn instruction_helpers() {
    let mut g = Codegen::new();
    g.icmd("ret");
    g.icmd1("pop", "%rbp");
    g.icmd2("mov", "%rsp", "%rbp");
    assert_eq!(g.buf, "  ret  pop %rbp  mov %rsp, %rbp");
    g.clear();
    g.icmdln("cqo");
    g.icmd1ln("idiv", "%rdi");
    g.icmd2ln("add", "%rdi", "%rax");
    assert_eq!(g.buf, "  cqo\n  idiv %rdi\n  add %rdi, %rax\n");
}

#[test]
fn push_and_pop_count() {
    let mut g = Codegen::new();
    g.ipush();
    g.ipush();
    assert_eq!(g.depth, 2);
    g.ipop("%rdi");
    assert_eq!(g.depth, 1);
    g.ipop("%rsi");
    assert_eq!(g.depth, 0);
    assert_eq!(g.buf, "  push %rax\n  push %rax\n  pop %rdi\n  pop %rsi\n");
}

#[test]
fn clear_keeps_the_counter() {
    let mut g = Codegen::new();
    g.ipush();
    g.clear();
    assert_eq!(g.buf, "");
    assert_eq!(g.depth, 1);
    g.writeln("x");
    assert_eq!(g.buf, "x\n");
}
