use newbie_sandbox::status::RunnerStatus;

#[test]
fn normal_exit_is_decoded() {
    // Status word 0x0100: exited normally with code 1.
    let r = RunnerStatus::from_wait(0x0100, 1, 500_000, 2, 300_000, 1234);
    assert_eq!(r.time_used, 1000 + 500 + 2000 + 300);
    assert_eq!(r.memory_used, 1234);
    assert_eq!(r.exit_code, 1);
    assert_eq!(r.signal, 0);
    assert_eq!(r.status, 0x0100);
}

#[test]
fn termination_by_signal_is_decoded() {
    // Status word 9: killed by SIGKILL.
    let r = RunnerStatus::from_wait(9, 0, 0, 0, 0, 0);
    assert_eq!(r.exit_code, 0);
    assert_eq!(r.signal, 9);
}

#[test]
fn stop_is_decoded() {
    // Status word 0x057f: stopped by signal 5.
    let r = RunnerStatus::from_wait(0x057f, 0, 0, 0, 0, 0);
    assert_eq!(r.exit_code, 0);
    assert_eq!(r.signal, 5);
}

#[test]
fn microseconds_round_down() {
    let r = RunnerStatus::from_wait(0, 0, 999, 0, 1_999, 0);
    assert_eq!(r.time_used, 0 + 1);
}

#[test]
fn report_has_fixed_layout() {
    let r = RunnerStatus {
        time_used: 3800,
        memory_used: 1234,
        exit_code: 1,
        status: 256,
        signal: 0,
    };
    let expected =
        b"time_used = 3800\nmemory_used = 1234\nexit_code = 1\nstatus = 256\nsignal = 0\n";
    assert_eq!(r.result_bytes(), expected.to_vec());
}

#[test]
fn report_renders_negative_values() {
    let r = RunnerStatus {
        time_used: -5,
        memory_used: 0,
        exit_code: 0,
        status: 0,
        signal: 0,
    };
    let expected = b"time_used = -5\nmemory_used = 0\nexit_code = 0\nstatus = 0\nsignal = 0\n";
    assert_eq!(r.result_bytes(), expected.to_vec());
}

#[test]
fn identical_results_render_identically() {
    let a = RunnerStatus {
        time_used: 17,
        memory_used: 42,
        exit_code: 3,
        status: 768,
        signal: 0,
    };
    let b = a;
    assert_eq!(a.result_bytes(), b.result_bytes());
}
