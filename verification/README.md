# camloc

Camera-based localisation of a marker cube. Camera clients report where they
see the cube's markers, a location server intersects their lines of sight,
and an organizer finds the hosts on the network, starts them and tells each
client where its camera stands.

`src/` is the verified library: the wire protocol (commands, host status
bytes, poses, the configuration header), the organizer's host bookkeeping,
address templates, the server's and the clients' message handling, the
extrapolation memory, values that expire, and the decisions behind the
terminal prompts. Verus proves every function there against its contract,
except the small trusted wrappers around standard-library calls (the clock,
UTF-8 decoding, lowercasing, range bounds, byte order), whose contracts are
assumed.

`app/` holds the programs around it: the organizer, the server and a listing
of the local networks. They do the I/O, the asynchronous plumbing and the
floating-point geometry, and leave every decision to the library.
