# icmp

A small ICMP echo ("ping") library with its proofs, and a command-line ping.

- `src/checksum.rs`: the Internet checksum (`sum16`) and its laws: folding keeps
  the residue modulo 0xFFFF, an odd buffer is padded with a zero byte, and a
  checksum written into a zeroed field makes the buffer check to zero.
- `src/endian.rs`: byte-order conversions over the host's byte order.
- `src/net.rs`: IP addresses as octets.
- `src/sys/unix/icmp/`: the ICMP header and its bytes in memory.
- `src/echo.rs`: echo requests and replies, and the session logic: the request
  packet, the reply made of a received buffer, and the reply buffer sizing.
- `src/sys/windows/sock.rs`: socket address structures in network order.
- `src/run.rs`: choosing among resolved addresses.
- `app/`: the program, socket system calls and name resolution.
