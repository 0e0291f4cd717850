# motorbridge

A verified core for driving CAN motors (Damiao, RobStride, MyActuator, HexFellow,
HighTorque) from one controller, a command-line tool and a WebSocket gateway.

- `src/` — the library, checked by Verus:
  - `bus`, `device`, `controller`, `vendor_controller`: CAN frames, the bus and motor
    interfaces, and controllers that keep motor ids distinct and route each received
    frame to the one motor it is for.
  - `socketcan`, `pcan`: the frame layouts of Linux SocketCAN (classic and CAN-FD) and
    of PEAK PCAN-Basic, PCAN channel strings and bit rates.
  - `hightorque`, `ht_commands`: the HighTorque protocol (frames, replies, commands)
    and what the command line sends in each mode.
  - `modes`, `abi`, `cli`: control-mode numbers, the C interface's rules, and the
    command-line tool's decisions.
  - `gateway`: the WebSocket gateway's settings, message fields, scan/verify/set-id
    plans and session decisions.
  - `text`, `error`: text helpers (integer reading and writing as `std` does it) and
    the shared error type.
- `tests/` — tests of the library.
- `app/` — the programs: sockets and PCAN access, the command-line runners and the
  gateway's async server (`motorbridge ws-gateway ...`).
