//! Setups of receive ends and senders.

use io_mux::naming::{
    make_abstract_receive_addr, make_abstract_sender_addr, make_directory_receive_addr,
    make_directory_sender_addr,
};
use io_mux::path::{join, path_eq};
use io_mux::setup::MuxProgress;
use io_mux::sender::SenderProgress;
use io_mux::{
    Action, Address, AsyncMux, ErrorKind, Fault, Mux, MuxError, MuxSender, MuxSetup, MuxStep,
    SenderSetup, SenderStep, Tag,
};

type Outcome = Result<(), Fault<u32>>;

fn failed(kind: ErrorKind, error: u32) -> Outcome {
    Err(Fault { kind, error })
}

fn in_use() -> Outcome {
    failed(ErrorKind::AddrInUse, 98)
}

fn text(addr: &Address) -> String {
    match addr {
        Address::Abstract(name) => format!("@{}", String::from_utf8(name.clone()).unwrap()),
        Address::Pathname(path) => String::from_utf8(path.clone()).unwrap(),
        Address::Unnamed => String::new(),
    }
}

fn shown(action: Action<'_>) -> String {
    match action {
        Action::MakeAddress(addr) => format!("make {}", text(addr)),
        Action::Bind(addr) => format!("bind {}", text(addr)),
        Action::Connect(addr) => format!("connect {}", text(addr)),
        Action::ShutdownRead => "shutdown read".to_string(),
        Action::ShutdownWrite => "shutdown write".to_string(),
    }
}

fn run_mux(
    setup: MuxSetup,
    system: &mut dyn FnMut(&str) -> Outcome,
) -> Result<Mux, MuxError<u32>> {
    let mut setup = setup;
    loop {
        let action = shown(setup.action());
        match setup.step(system(&action)) {
            MuxStep::Pending(next) => setup = next,
            MuxStep::Done(result) => return result,
        }
    }
}

fn run_sender(
    setup: SenderSetup<'_>,
    system: &mut dyn FnMut(&str) -> Outcome,
) -> Result<(Tag, MuxSender), MuxError<u32>> {
    let mut setup = setup;
    loop {
        let action = shown(setup.action());
        match setup.step(system(&action)) {
            SenderStep::Pending(next) => setup = next,
            SenderStep::Done(result) => return result,
        }
    }
}

fn directory_mux() -> Mux {
    run_mux(Mux::new_with_tempdir(b"/tmp/dir".to_vec()), &mut |_| Ok(())).unwrap()
}

fn abstract_mux() -> Mux {
    run_mux(MuxSetup::with_id(0xabc, 0), &mut |_| Ok(())).unwrap()
}

#[test]
fn addresses_are_named_after_ids() {
    assert_eq!(text(&make_abstract_receive_addr(0)), "@io-mux-0");
    assert_eq!(text(&make_abstract_receive_addr(0xab)), "@io-mux-ab");
    assert_eq!(text(&make_abstract_sender_addr(0x1f0)), "@io-mux-send-1f0");
    assert_eq!(
        text(&make_abstract_sender_addr(u128::MAX)),
        "@io-mux-send-ffffffffffffffffffffffffffffffff"
    );
    assert_eq!(text(&make_directory_receive_addr(b"/tmp/dir")), "/tmp/dir/r");
    assert_eq!(text(&make_directory_sender_addr(b"/tmp/dir", 255)), "/tmp/dir/ff");
    assert_eq!(text(&make_directory_sender_addr(b"/tmp/dir/", 16)), "/tmp/dir/10");
}

#[test]
fn numerals_agree_with_format() {
    let mut id: u128 = 1;
    for k in 0..2000u128 {
        id = id.wrapping_mul(6364136223846793005).wrapping_add(k);
        let n = id >> (k % 128);
        assert_eq!(text(&make_abstract_receive_addr(n)), format!("@io-mux-{n:x}"));
    }
}

#[test]
fn joining_agrees_with_paths() {
    for dir in ["", "/", "a", "a/", "/tmp/x", "/tmp/x/", ".", "./"] {
        for name in ["r", "1f", "/rooted", "..", "a/b"] {
            let joined = join(dir.as_bytes(), name.as_bytes());
            let expected = std::path::Path::new(dir).join(name);
            assert_eq!(std::str::from_utf8(&joined).unwrap(), expected.to_str().unwrap());
        }
    }
}

#[test]
fn names_of_different_sockets_differ() {
    assert!(!make_abstract_sender_addr(1).same(&make_abstract_sender_addr(0x10)));
    assert!(!make_directory_sender_addr(b"d", 1).same(&make_directory_sender_addr(b"d", 0x10)));
    assert!(!make_abstract_receive_addr(1).same(&make_abstract_receive_addr(2)));
    assert!(!make_abstract_receive_addr(1).same(&make_abstract_sender_addr(1)));
    assert!(!make_directory_receive_addr(b"d").same(&make_directory_sender_addr(b"d", 1)));
    assert!(make_directory_sender_addr(b"d", 1).same(&make_directory_sender_addr(b"d//", 1)));
    assert!(path_eq(b"d/1", b"d//1"));
}

#[test]
fn directory_mux_makes_its_calls_in_order() {
    let mut calls = Vec::new();
    let setup = Mux::new(Ok::<Vec<u8>, u32>(b"/tmp/dir".to_vec())).unwrap();
    let mux = run_mux(setup, &mut |call| {
        calls.push(call.to_string());
        Ok(())
    });
    assert_eq!(calls, ["make /tmp/dir/r", "bind /tmp/dir/r", "shutdown write"]);
    assert_eq!(mux.unwrap().buf_len(), 8192);
}

#[test]
fn failed_directory_is_returned() {
    assert!(matches!(Mux::new(Err::<Vec<u8>, u32>(5)), Err(5)));
    assert!(matches!(Mux::new_in(Err::<Vec<u8>, u32>(6)), Err(6)));
    assert!(matches!(AsyncMux::new(Err::<Vec<u8>, u32>(7)), Err(7)));
    assert!(matches!(AsyncMux::new_in(Err::<Vec<u8>, u32>(8)), Err(8)));
    let setup = AsyncMux::new_in(Ok::<Vec<u8>, u32>(b"/x".to_vec())).unwrap();
    assert_eq!(shown(setup.action()), "make /x/r");
}

#[test]
fn directory_mux_is_not_tried_again() {
    let mut binds = 0;
    let result = run_mux(Mux::new_with_tempdir(b"/d".to_vec()), &mut |call| {
        if call.starts_with("bind") {
            binds += 1;
            in_use()
        } else {
            Ok(())
        }
    });
    assert_eq!(binds, 1);
    let error = result.err().unwrap();
    assert_eq!(error.kind(), ErrorKind::AddrInUse);
    assert_eq!(error.message(), None);
    assert!(matches!(error, MuxError::Os(Fault { kind: ErrorKind::AddrInUse, error: 98 })));
}

#[test]
fn failed_shutdown_of_writing_is_ignored() {
    let result = run_mux(MuxSetup::with_id(1, 0), &mut |call| {
        if call == "shutdown write" {
            failed(ErrorKind::Other, 107)
        } else {
            Ok(())
        }
    });
    assert!(result.is_ok());
}

#[test]
fn failed_address_is_final() {
    for kind in [ErrorKind::Other, ErrorKind::AddrInUse, ErrorKind::WouldBlock] {
        let result = run_mux(Mux::new_abstract(), &mut |_| failed(kind, 22));
        assert!(matches!(result, Err(MuxError::Os(Fault { error: 22, .. }))));
        let mux = directory_mux();
        let result = run_sender(mux.make_sender(), &mut |_| failed(kind, 22));
        assert!(matches!(result, Err(MuxError::Os(Fault { error: 22, .. }))));
    }
}

#[test]
fn abstract_mux_gives_up_after_all_attempts() {
    let mut binds = 0;
    let result = run_mux(Mux::new_abstract(), &mut |call| {
        if call.starts_with("bind @io-mux-") {
            binds += 1;
            in_use()
        } else {
            Ok(())
        }
    });
    assert_eq!(binds, 32768);
    let error = result.err().unwrap();
    assert!(matches!(error, MuxError::NoUniqueName));
    assert_eq!(error.kind(), ErrorKind::AddrInUse);
    assert_eq!(error.message(), Some("couldn't create unique socket name"));
}

#[test]
fn sender_gives_up_after_all_attempts() {
    for mux in [directory_mux(), abstract_mux()] {
        let mut binds = 0;
        let result = run_sender(mux.make_sender(), &mut |call| {
            if call.starts_with("bind") {
                binds += 1;
                in_use()
            } else {
                Ok(())
            }
        });
        assert_eq!(binds, 32768);
        assert!(matches!(result, Err(MuxError::NoUniqueName)));
    }
}

#[test]
fn first_free_name_is_taken() {
    let mut names = Vec::new();
    let result = run_mux(Mux::new_abstract(), &mut |call| {
        if call.starts_with("bind") {
            names.push(call.to_string());
            if names.len() < 5 {
                return in_use();
            }
        }
        Ok(())
    });
    assert!(result.is_ok());
    assert_eq!(names.len(), 5);
    names.sort();
    names.dedup();
    assert_eq!(names.len(), 5);
}

#[test]
fn other_bind_error_is_final() {
    let mut binds = 0;
    let result = run_mux(Mux::new_abstract(), &mut |call| {
        if call.starts_with("bind") {
            binds += 1;
            if binds == 3 {
                return failed(ErrorKind::Other, 13);
            }
            return in_use();
        }
        Ok(())
    });
    assert_eq!(binds, 3);
    assert!(matches!(result, Err(MuxError::Os(Fault { kind: ErrorKind::Other, error: 13 }))));
}

#[test]
fn progress_says_what_an_outcome_means() {
    let setup = match MuxSetup::with_id(9, 3).progress(Ok::<(), Fault<u32>>(())) {
        MuxProgress::Pending(setup) => setup,
        _ => panic!("an address is bound next"),
    };
    assert!(matches!(setup.progress(in_use()), MuxProgress::Collision(3)));
    let mux = abstract_mux();
    let setup = match SenderSetup::with_id(&mux, 9, 2).progress(Ok::<(), Fault<u32>>(())) {
        SenderProgress::Pending(setup) => setup,
        _ => panic!("an address is bound next"),
    };
    assert!(matches!(setup.progress(in_use()), SenderProgress::Collision(2)));
}

#[test]
fn sender_makes_its_calls_in_order() {
    let mux = abstract_mux();
    let mut calls = Vec::new();
    let result = run_sender(SenderSetup::with_id(&mux, 0x2a, 0), &mut |call| {
        calls.push(call.to_string());
        Ok(())
    });
    assert!(result.is_ok());
    assert_eq!(
        calls,
        [
            "make @io-mux-send-2a",
            "bind @io-mux-send-2a",
            "connect @io-mux-abc",
            "shutdown read"
        ]
    );
    let mux = directory_mux();
    let mut calls = Vec::new();
    let result = run_sender(SenderSetup::with_id(&mux, 0x2a, 0), &mut |call| {
        calls.push(call.to_string());
        Ok(())
    });
    assert!(result.is_ok());
    assert_eq!(
        calls,
        ["make /tmp/dir/2a", "bind /tmp/dir/2a", "connect /tmp/dir/r", "shutdown read"]
    );
}

#[test]
fn later_sender_errors_are_final() {
    let mux = directory_mux();
    for step in ["connect /tmp/dir/r", "shutdown read"] {
        for kind in [ErrorKind::Other, ErrorKind::AddrInUse] {
            let mut failures = 0;
            let result = run_sender(mux.make_sender(), &mut |call| {
                if call == step {
                    failures += 1;
                    failed(kind, 111)
                } else {
                    Ok(())
                }
            });
            assert_eq!(failures, 1);
            assert!(matches!(result, Err(MuxError::Os(Fault { error: 111, .. }))));
        }
    }
}

#[test]
fn tags_of_senders_are_unique() {
    let mux = directory_mux();
    let mut taken: Vec<String> = Vec::new();
    let mut tags: Vec<Tag> = Vec::new();
    for id in [7u128, 7, 9, 7, 9, 11] {
        let (tag, _) = run_sender(SenderSetup::with_id(&mux, id, 10), &mut |call| {
            if call.starts_with("bind") {
                if taken.iter().any(|name| name == call) {
                    return in_use();
                }
                taken.push(call.to_string());
            }
            Ok(())
        })
        .unwrap();
        for other in &tags {
            assert_ne!(&tag, other);
        }
        tags.push(tag);
    }
}

#[test]
fn write_sends_one_datagram_to_the_receive_end() {
    let mux = directory_mux();
    let (_, mut sender) =
        run_sender(SenderSetup::with_id(&mux, 1, 0), &mut |_| Ok(())).unwrap();
    let datagram = sender.write(b"hello");
    assert_eq!(datagram.data, b"hello");
    assert_eq!(text(datagram.from), "/tmp/dir/1");
    assert_eq!(text(datagram.to), "/tmp/dir/r");
    assert_eq!(sender.flush::<u32>(), Ok(()));
}

#[test]
fn failed_registration_is_returned() {
    let result = AsyncMux::with_mux(directory_mux(), failed(ErrorKind::Other, 9));
    assert!(matches!(result, Err(MuxError::Os(Fault { kind: ErrorKind::Other, error: 9 }))));
    let mux = AsyncMux::with_mux(directory_mux(), Ok::<(), Fault<u32>>(())).unwrap();
    assert_eq!(mux.buf_len(), 8192);
    assert!(shown(mux.make_sender().action()).starts_with("make /tmp/dir/"));
}

#[test]
fn addresses_of_muxes_are_unique() {
    let mut taken: Vec<String> = Vec::new();
    for id in [7u128, 7, 9, 7, 9, 11] {
        let mut bound = String::new();
        let result = run_mux(MuxSetup::with_id(id, 10), &mut |call| {
            if call.starts_with("bind") {
                if taken.iter().any(|name| name == call) {
                    return in_use();
                }
                bound = call.to_string();
            }
            Ok(())
        });
        assert!(result.is_ok());
        assert!(!taken.contains(&bound));
        taken.push(bound);
    }
}
