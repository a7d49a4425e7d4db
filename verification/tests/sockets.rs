//! Muxes on real sockets.

use futures_lite::future;
use futures_lite::FutureExt;
use io_mux::{
    Action, Address, AsyncMux, ErrorKind, Fault, Mux, MuxError, MuxSetup, MuxStep, ReadCall,
    ReadStep, Received, SenderSetup, SenderStep, Sizing, Tag, TaggedData,
};
use rustix::fd::OwnedFd;
use rustix::io::Errno;
use rustix::net::{
    AddressFamily, RecvFlags, SendFlags, Shutdown, SocketAddrAny, SocketAddrUnix, SocketFlags,
    SocketType,
};

fn fault(error: Errno) -> Fault<Errno> {
    let kind = if error == Errno::ADDRINUSE {
        ErrorKind::AddrInUse
    } else if error == Errno::AGAIN {
        ErrorKind::WouldBlock
    } else {
        ErrorKind::Other
    };
    Fault { kind, error }
}

fn to_unix(addr: &Address) -> Result<SocketAddrUnix, Errno> {
    match addr {
        Address::Abstract(name) => SocketAddrUnix::new_abstract_name(name),
        Address::Pathname(path) => SocketAddrUnix::new(path),
        Address::Unnamed => Err(Errno::INVAL),
    }
}

fn from_unix(addr: Option<SocketAddrAny>) -> Address {
    match addr {
        Some(SocketAddrAny::Unix(unix)) => match (unix.abstract_name(), unix.path()) {
            (Some(name), _) => Address::Abstract(name.to_vec()),
            (_, Some(path)) => Address::Pathname(path.to_bytes().to_vec()),
            _ => Address::Unnamed,
        },
        _ => Address::Unnamed,
    }
}

fn bind(addr: &Address) -> Result<OwnedFd, Errno> {
    let socket = rustix::net::socket_with(
        AddressFamily::UNIX,
        SocketType::DGRAM,
        SocketFlags::CLOEXEC,
        None,
    )?;
    rustix::net::bind_unix(&socket, &to_unix(addr)?)?;
    Ok(socket)
}

fn call(action: Action<'_>, socket: &mut Option<OwnedFd>) -> Result<(), Errno> {
    match action {
        Action::MakeAddress(addr) => to_unix(addr).map(|_| ()),
        Action::Bind(addr) => bind(addr).map(|fd| *socket = Some(fd)),
        Action::Connect(addr) => {
            rustix::net::connect_unix(socket.as_ref().unwrap(), &to_unix(addr)?)
        }
        Action::ShutdownRead => {
            rustix::net::shutdown(socket.as_ref().unwrap(), Shutdown::Read)
        }
        Action::ShutdownWrite => {
            rustix::net::shutdown(socket.as_ref().unwrap(), Shutdown::Write)
        }
    }
}

fn run_mux_setup(setup: MuxSetup) -> Result<(Mux, OwnedFd), MuxError<Errno>> {
    let mut socket = None;
    let mut setup = setup;
    loop {
        let outcome = call(setup.action(), &mut socket).map_err(fault);
        match setup.step(outcome) {
            MuxStep::Pending(next) => setup = next,
            MuxStep::Done(result) => return result.map(|mux| (mux, socket.unwrap())),
        }
    }
}

fn run_sender_setup(setup: SenderSetup<'_>) -> Result<(Tag, OwnedFd), MuxError<Errno>> {
    let mut socket = None;
    let mut setup = setup;
    loop {
        let outcome = call(setup.action(), &mut socket).map_err(fault);
        match setup.step(outcome) {
            SenderStep::Pending(next) => setup = next,
            SenderStep::Done(result) => return result.map(|(tag, _)| (tag, socket.unwrap())),
        }
    }
}

fn read_call(call: ReadCall, socket: &OwnedFd, buf: &mut [u8]) -> Result<Received, Errno> {
    match call {
        ReadCall::Wait(_) => Ok(Received { len: 0, from: Address::Unnamed }),
        ReadCall::PeekLen => {
            let len = rustix::net::recv(socket, &mut [], RecvFlags::PEEK | RecvFlags::TRUNC)?;
            Ok(Received { len, from: Address::Unnamed })
        }
        ReadCall::Peek => {
            let len = rustix::net::recv(socket, buf, RecvFlags::PEEK)?;
            Ok(Received { len, from: Address::Unnamed })
        }
        ReadCall::Receive => {
            let (len, from) = rustix::net::recvfrom(socket, buf, RecvFlags::empty())?;
            Ok(Received { len, from: from_unix(from) })
        }
        ReadCall::Discard(_) => {
            let (_, from) = rustix::net::recvfrom(socket, &mut [], RecvFlags::empty())?;
            Ok(Received { len: 0, from: from_unix(from) })
        }
    }
}

fn read<'mux>(
    mux: &'mux mut Mux,
    socket: &OwnedFd,
    sizing: Sizing,
) -> Result<TaggedData<'mux>, Errno> {
    let mut next = ReadCall::first(sizing);
    let received = loop {
        let reply = read_call(next, socket, mux.buf_mut());
        match mux.recv_from_full(next, reply) {
            ReadStep::Call(call) => next = call,
            ReadStep::Done(result) => break result,
        }
    };
    mux.read(received)
}

fn nonblock_result(
    mux: &mut AsyncMux,
    socket: &OwnedFd,
    sizing: Sizing,
) -> Result<Received, Fault<Errno>> {
    let mut next = ReadCall::first(sizing);
    loop {
        let reply = read_call(next, socket, mux.buf_mut()).map_err(fault);
        match mux.recv_from_full(next, reply) {
            ReadStep::Call(call) => next = call,
            ReadStep::Done(result) => return result,
        }
    }
}

fn send(socket: &OwnedFd, data: &[u8]) {
    assert_eq!(rustix::net::send(socket, data, SendFlags::empty()), Ok(data.len()));
}

fn new_in_dir(dir: &tempfile::TempDir) -> (Mux, OwnedFd) {
    let path = dir.path().to_str().unwrap().as_bytes().to_vec();
    let setup = Mux::new(Ok::<Vec<u8>, Errno>(path)).unwrap();
    run_mux_setup(setup).unwrap()
}

/// Starts a child that writes to two senders, and checks what is read of it. Unless `first_exits`,
/// the reads begin while the child may still be writing.
fn run_with_mux(mut mux: Mux, socket: OwnedFd, sizing: Sizing, first_exits: bool) {
    let (out_tag, out_sender) = run_sender_setup(mux.make_sender()).unwrap();
    let (err_tag, err_sender) = run_sender_setup(mux.make_sender()).unwrap();
    let mut child = async_process::Command::new("sh")
        .arg("-c")
        .arg("echo out1 && echo err1 1>&2 && echo out2 && echo err2 1>&2")
        .stdout(out_sender)
        .stderr(err_sender)
        .spawn()
        .unwrap();

    let (done_tag, done_sender) = run_sender_setup(mux.make_sender()).unwrap();
    let mut finish = || {
        let status = future::block_on(child.status()).unwrap();
        if status.success() {
            send(&done_sender, b"Done\n");
        } else {
            send(&done_sender, b"Child process failed\n");
        }
    };
    if first_exits {
        finish();
    }

    let data1 = read(&mut mux, &socket, sizing).unwrap();
    assert_eq!(data1.tag, out_tag);
    assert_eq!(data1.data, b"out1\n");
    let data2 = read(&mut mux, &socket, sizing).unwrap();
    assert_eq!(data2.tag, err_tag);
    assert_eq!(data2.data, b"err1\n");
    let data3 = read(&mut mux, &socket, sizing).unwrap();
    assert_eq!(data3.tag, out_tag);
    assert_eq!(data3.data, b"out2\n");
    let data4 = read(&mut mux, &socket, sizing).unwrap();
    assert_eq!(data4.tag, err_tag);
    assert_eq!(data4.data, b"err2\n");
    if !first_exits {
        finish();
    }
    let done = read(&mut mux, &socket, sizing).unwrap();
    assert_eq!(done.tag, done_tag);
    assert_eq!(done.data, b"Done\n");
}

fn test_with_mux(mux: Mux, socket: OwnedFd, sizing: Sizing) {
    run_with_mux(mux, socket, sizing, false);
}

#[test]
fn child_can_exit_before_the_first_read() {
    for sizing in [Sizing::Told, Sizing::Growing] {
        let dir = tempfile::tempdir().unwrap();
        let (mux, socket) = new_in_dir(&dir);
        run_with_mux(mux, socket, sizing, true);
    }
}

#[test]
fn test() {
    let dir = tempfile::tempdir().unwrap();
    let (mux, socket) = new_in_dir(&dir);
    test_with_mux(mux, socket, Sizing::Told);
}

#[test]
fn test_growing() {
    let dir = tempfile::tempdir().unwrap();
    let (mux, socket) = new_in_dir(&dir);
    test_with_mux(mux, socket, Sizing::Growing);
}

#[test]
fn test_new_in() {
    let dir = tempfile::tempdir().unwrap();
    let dir_entries = || dir.path().read_dir().unwrap().map(|entry| entry.unwrap()).count();
    assert_eq!(dir_entries(), 0);
    let sub = tempfile::tempdir_in(dir.path()).unwrap();
    let path = sub.path().to_str().unwrap().as_bytes().to_vec();
    let setup = Mux::new_in(Ok::<Vec<u8>, Errno>(path)).unwrap();
    let (mux, socket) = run_mux_setup(setup).unwrap();
    assert_eq!(dir_entries(), 1);
    test_with_mux(mux, socket, Sizing::Told);
}

#[test]
fn test_abstract() {
    let (mux, socket) = run_mux_setup(Mux::new_abstract()).unwrap();
    test_with_mux(mux, socket, Sizing::Told);
}

fn test_with_async_mux(mux: Mux, socket: OwnedFd) {
    let io = async_io::Async::new(socket);
    let registered = match &io {
        Ok(_) => Ok(()),
        Err(_) => Err(fault(Errno::INVAL)),
    };
    let mut mux = AsyncMux::with_mux(mux, registered).unwrap();
    let io = io.unwrap();

    future::block_on(async {
        let (out_tag, out_sender) = run_sender_setup(mux.make_sender()).unwrap();
        let (err_tag, err_sender) = run_sender_setup(mux.make_sender()).unwrap();
        let mut child = async_process::Command::new("sh")
            .arg("-c")
            .arg("echo out1 && echo err1 1>&2 && echo out2 && echo err2 1>&2")
            .stdout(out_sender)
            .stderr(err_sender)
            .spawn()
            .unwrap();
        let mut expected = vec![
            (out_tag.clone(), b"out1\n"),
            (err_tag.clone(), b"err1\n"),
            (out_tag, b"out2\n"),
            (err_tag, b"err2\n"),
        ];
        let mut expected = expected.drain(..);
        let mut status = None;
        while status.is_none() {
            async {
                status = Some(child.status().await.unwrap());
            }
            .or(async {
                let mut next = AsyncMux::first_call(Sizing::Told);
                let received = loop {
                    let reply = if let ReadCall::Wait(_) = next {
                        io.readable().await.unwrap();
                        Ok(Received { len: 0, from: Address::Unnamed })
                    } else {
                        read_call(next, io.get_ref(), mux.buf_mut())
                    };
                    match mux.recv_from_full(next, reply) {
                        ReadStep::Call(call) => next = call,
                        ReadStep::Done(result) => break result,
                    }
                };
                let data = mux.read(received).unwrap();
                let (expected_tag, expected_data) = expected.next().unwrap();
                assert_eq!(data.tag, expected_tag);
                assert_eq!(data.data, expected_data);
            })
            .await;
        }
        loop {
            let received = nonblock_result(&mut mux, io.get_ref(), Sizing::Told);
            match mux.read_nonblock(received).unwrap() {
                Some(data) => {
                    let (expected_tag, expected_data) = expected.next().unwrap();
                    assert_eq!(data.tag, expected_tag);
                    assert_eq!(data.data, expected_data);
                }
                None => break,
            }
        }
        assert!(status.unwrap().success());
        assert_eq!(expected.next(), None);
    })
}

#[test]
fn test_async() {
    let dir = tempfile::tempdir().unwrap();
    let path = dir.path().to_str().unwrap().as_bytes().to_vec();
    let setup = AsyncMux::new(Ok::<Vec<u8>, Errno>(path)).unwrap();
    let (mux, socket) = run_mux_setup(setup).unwrap();
    test_with_async_mux(mux, socket);
}

#[test]
fn test_abstract_async() {
    let (mux, socket) = run_mux_setup(AsyncMux::new_abstract()).unwrap();
    test_with_async_mux(mux, socket);
}

#[test]
fn large_packets_come_out_whole() {
    for sizing in [Sizing::Told, Sizing::Growing] {
        let dir = tempfile::tempdir().unwrap();
        let (mut mux, socket) = new_in_dir(&dir);
        let (tag, sender) = run_sender_setup(mux.make_sender()).unwrap();
        for len in [0usize, 1, 8191, 8192, 8193, 20000, 40000, 3] {
            let data: Vec<u8> = (0..len).map(|i| (i % 251) as u8).collect();
            send(&sender, &data);
            let read = read(&mut mux, &socket, sizing).unwrap();
            assert_eq!(read.tag, tag);
            assert_eq!(read.data, &data[..]);
        }
        assert!(mux.buf_len() >= 40000);
    }
}

#[test]
fn taken_directory_address_is_an_error() {
    let dir = tempfile::tempdir().unwrap();
    let (_mux, _socket) = new_in_dir(&dir);
    let path = dir.path().to_str().unwrap().as_bytes().to_vec();
    match run_mux_setup(Mux::new_with_tempdir(path)) {
        Err(MuxError::Os(f)) => assert_eq!(f.error, Errno::ADDRINUSE),
        _ => panic!("a taken address was bound"),
    }
}

#[test]
fn unusable_directory_is_an_error() {
    let missing = b"/nonexistent/directory".to_vec();
    match run_mux_setup(Mux::new_with_tempdir(missing)) {
        Err(MuxError::Os(f)) => assert_eq!(f.error, Errno::NOENT),
        _ => panic!("a socket was bound in a missing directory"),
    }
    let long = vec![b'd'; 200];
    match run_mux_setup(Mux::new_with_tempdir(long)) {
        Err(MuxError::Os(f)) => assert_eq!(f.error, Errno::NAMETOOLONG),
        _ => panic!("an address was made of an overlong path"),
    }
}

#[test]
fn muxes_do_not_disturb_each_other() {
    let dir = tempfile::tempdir().unwrap();
    let (mut one, one_socket) = new_in_dir(&dir);
    let (mut two, two_socket) = run_mux_setup(Mux::new_abstract()).unwrap();
    let (one_tag, one_sender) = run_sender_setup(one.make_sender()).unwrap();
    let (two_tag, two_sender) = run_sender_setup(two.make_sender()).unwrap();
    for k in 0..30u8 {
        send(&one_sender, &[k]);
        send(&two_sender, &[k, k]);
        send(&one_sender, &[k, 1]);
        assert_eq!(read(&mut one, &one_socket, Sizing::Told).unwrap().data, &[k]);
        let data = read(&mut two, &two_socket, Sizing::Growing).unwrap();
        assert_eq!(data.data, &[k, k]);
        assert_eq!(data.tag, two_tag);
        let data = read(&mut one, &one_socket, Sizing::Told).unwrap();
        assert_eq!(data.data, &[k, 1]);
        assert_eq!(data.tag, one_tag);
    }
}
