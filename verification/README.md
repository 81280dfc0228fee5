# MonHop transport

The fail-closed, interface-pinned transport between two paired computers that share a keyboard and
a pointer. Networking is opt-in: a device is trusted by its full certificate fingerprint alone, a
socket speaks to one numeric peer over one physical interface, and whatever ends a session releases
every key and button it injected.

## Layout

- `src/` is the library, verified with Verus. Its functions carry their contracts; of a random key
  pair, and of what a destination reads of its surroundings, nothing can be promised.
  - `crypto`, `identity_store`, `native_storage`, `pairing`: identities, their protected records,
    and what a person compares before two computers trust each other.
  - `policy`, `guarded_endpoint`: which interface, route and packet is allowed, and when an endpoint
    is revoked.
  - `session_setup`, `session_handshake`, `session_layout`, `session_link`: from two bound endpoints
    to an agreed session, and the layout that both computers keep.
  - `session`, `session_runtime`, `session_health`, `session_receiver`, `session_actor`,
    `session_native`: a running session: its coordinator, its deadlines, and what reaches the
    destination.
  - `display_arrangement`: the ways between displays.
  - `protocol`, `envelope`, `addr`, `bytes`, `hex`, `text`, `time`, `session_clock`, `io_error`:
    values that the others share.
- `tests/` runs the library on concrete values.
- `app/` is what surrounds it: QUIC and TLS, sockets, threads, clocks, and the traits through which
  an operating system offers its networks, displays and input.

## How decisions and work are kept apart

Whatever waits, reads a clock or touches the system is done in `app/`. The library holds the state
machines: each takes what came of the last action and names the next one. Their transitions are spec
functions on a mathematical view, and the laws that span several steps are the public proof
functions whose names begin with `law_`.

Coordinates are integers that order as the floating-point numbers they stand for; `app/` converts.
Lengths of time are counted in nanoseconds.
