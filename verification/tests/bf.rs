use ykbf::control::interp;
use ykbf::loader::compile;
use ykbf::machine::IoChannel;

const FUEL: u64 = 100_000_000;

fn test_stdout(prg: &str, stdout_str: &str) {
    test_stdin(prg, "", stdout_str);
}

fn test_stdin(prg: &str, stdin_str: &str, stdout_str: &str) {
    let prog = compile(prg.as_bytes()).unwrap();
    let mut io = IoChannel::new(stdin_str.as_bytes().to_vec());
    let (_state, halted) = interp(prog, &mut io, FUEL);
    assert!(halted);
    assert_eq!(io.output, stdout_str.as_bytes().to_vec());
}

#[test]
fn test_hello_world() {
    test_stdout("++++++++++[>+++++++>++++++++++>+++>+<<<<-]>++.>+.+++++++..+++.>++.<<+++++++++++++++.>.+++.------.--------.>+.>.", "Hello World!\n");
}

#[test]
fn test_obscure_problems() {
    // From http://www.hevanet.com/cristofd/brainfuck/tests.b
    test_stdout(
        "[]++++++++++[>>+>+>++++++[<<+<+++>>>-]<<<<-]\"A*$\";?@![#>>+<<]>[>>]<<<<[>++<[-]]>.>.",
        "H\n",
    );
}

#[test]
fn test_echo() {
    test_stdin(",[.[-],]", "ABCdef", "ABCdef");
}
