# `io_mux`

A mux provides a single receive end and multiple send ends. Data sent to any of the send ends comes
out the receive end, in order, tagged by the sender. Each end is a UNIX datagram socket.

## Layout

- `src/` is the verified library. It decides how sockets are named, when another name is tried, how
  large the buffer for the next packet has to be, and which tag belongs to which data. It asks its
  caller for one socket call at a time and makes none itself.
  - `path`, `hex`, `naming`, `address`, `tag`: names of sockets and their comparison.
  - `setup`, `sender`: how receive ends and senders come to be.
  - `mux`, `read`, `async_mux`: how packets are read.
  - `retry`, `delivery`, `history`: what holds of a whole setup, of whole reads, and of any sequence
    of reads and writes.
- `app/` runs the library on the sockets of the system.
- `tests/` runs it on real sockets and on made-up ones.

## Portability

On some systems other than Linux, a write to a UNIX socket whose buffers are full fails with
`ENOBUFS` rather than waiting, which is not how a pipe behaves. `app/` therefore does not compile
there unless the cfg `feature="experimental-unix-support"` is set. The cfg `feature="test-portable"`
makes it read on Linux as it does elsewhere, by growing the buffer.
