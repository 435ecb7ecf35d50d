# termdj

Term DJ makes a Linux host look like a rekordbox library to Pioneer DJ
players on the same network: it answers their keep-alive and status packets,
serves the remote database protocol (artists, titles, metadata, mount
information) and the portmap, mount and NFS programs that players use to
read the music files.

## Layout

- `src/` is the library, verified with Verus:
  - `wire.rs`, `buffer.rs`, `text.rs`: byte readers and writers, the
    `bytes::Bytes` buffers, UTF-8 and UTF-16 text;
  - `rekordbox/`: the packet formats (keep-alive, status, remote database
    messages and fields), the players, the decisions of the linking server
    and client, and the remote database (`rekordbox/library/`);
  - `rpc/`: the RPC messages, the routing of calls and the NFS lookups;
  - `utils/network.rs`: IPv4 networks and the search for the host's network
    that reaches a player;
  - `library.rs`: the metadata that ID3 tags give.
- `tests/`: tests of the library.
- `app/`: the program around it: sockets, threads and tasks, the scan of
  the music folder, and the host's network interfaces.
