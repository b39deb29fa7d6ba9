use newbie_sandbox::error::Error;
use newbie_sandbox::exec_args::ExecArgs;

#[test]
fn test_exec_args() {
    let _exec_args = ExecArgs::build(&vec![
        String::from("/bin/echo"),
        String::from("Hello"),
        String::from("World"),
    ]);
}

#[test]
fn build_populates_pathname_argv_envp() {
    let e = ExecArgs::build(&vec![String::from("/bin/true"), String::from("-x")]).unwrap();
    assert_eq!(e.pathname, b"/bin/true".to_vec());
    assert_eq!(e.argv.len(), 2);
    assert_eq!(e.argv[0], b"/bin/true".to_vec());
    assert_eq!(e.argv[1], b"-x".to_vec());
    assert_eq!(e.envp.len(), 3);
    assert_eq!(
        e.envp[0],
        b"PATH=/root/.cargo/bin:/usr/local/sbin:/usr/local/bin:/usr/sbin:/usr/bin:/sbin:/bin"
            .to_vec()
    );
    assert_eq!(e.envp[1], b"HOME=/tmp".to_vec());
    assert_eq!(e.envp[2], b"TERM=xterm".to_vec());
}

#[test]
fn embedded_nul_fails_with_position() {
    let r = ExecArgs::build(&vec![String::from("/bin/echo"), String::from("he\0llo")]);
    assert!(matches!(r, Err(Error::InvalidString(2))));
}

#[test]
fn nul_in_first_argument_reports_its_position() {
    let r = ExecArgs::build(&vec![String::from("\0oops")]);
    assert!(matches!(r, Err(Error::InvalidString(0))));
}

#[test]
fn rebuilding_yields_identical_vectors() {
    let args = vec![
        String::from("/bin/echo"),
        String::from("Hello"),
        String::from("World"),
    ];
    let a = ExecArgs::build(&args).unwrap();
    let b = ExecArgs::build(&args).unwrap();
    assert_eq!(a.pathname, b.pathname);
    assert_eq!(a.argv, b.argv);
    assert_eq!(a.envp, b.envp);
}
