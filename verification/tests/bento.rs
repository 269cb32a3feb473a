use boundless::bento::{join_keys, receipt_key, session_step, Args, ArgsError, InputSource, SessionStep};

#[test]
fn session_steps() {
    assert_eq!(session_step("RUNNING", false), SessionStep::Wait);
    assert_eq!(session_step("SUCCEEDED", true), SessionStep::Finish);
    assert_eq!(session_step("SUCCEEDED", false), SessionStep::DownloadReceipt);
    assert_eq!(session_step("FAILED", false), SessionStep::Fail);
    assert_eq!(session_step("running", false), SessionStep::Fail);
}

#[test]
fn receipt_keys() {
    assert_eq!(receipt_key("abc", "recursion", 42), "job:abc:recursion:42");
    let k = join_keys("j1", "rec", 0, 1, 7);
    assert_eq!(k.left, "job:j1:rec:0");
    assert_eq!(k.right, "job:j1:rec:1");
    assert_eq!(k.output, "job:j1:rec:7");
}

#[test]
fn client_input_sources() {
    let mut args = Args {
        elf_file: Some("guest.elf".to_string()),
        input_file: Some("input.bin".to_string()),
        iter_count: Some(5),
        exec_only: false,
        endpoint: "http://localhost:8081".to_string(),
    };
    match args.input_source() {
        Ok(InputSource::Files { elf, input }) => {
            assert_eq!(elf, "guest.elf");
            assert_eq!(input, "input.bin");
        }
        _ => panic!("expected files"),
    }
    args.elf_file = None;
    args.input_file = None;
    assert!(matches!(args.input_source(), Ok(InputSource::SampleIterations { count: 5 })));
    args.iter_count = None;
    assert!(matches!(args.input_source(), Err(ArgsError::NoInputSource)));
}
