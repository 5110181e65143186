# ipc_broker

A verified library for a small IPC system: devices send telemetry and
heartbeats to a broker over a Unix socket, the broker forwards them to
monitors and tracks each device's health, and monitors send commands back to
a chosen device.

- `src/` is the library, checked by Verus:
  - `message.rs`: the message frame, the command payload protocol and the
    law that the broker finds the target a monitor's command names;
  - `health.rs`: a device's health record, how a message and a watchdog tick
    change it, and the laws of escalation and recovery;
  - `broker.rs`: the broker's tables (monitors, routes, health), its
    decisions on messages, ticks and disconnections, and its status report;
  - `client.rs`: what a simulated device sends each tick and how a monitor
    reads a typed command;
  - `text.rs`: whitespace, trimming, splitting, decimal numbers;
  - `clock.rs`: readings of the system clocks.
- `app/` runs the three programs (`broker`, `device`, `monitor`): sockets,
  threads, terminal output and JSON framing.
- `tests/` runs the library on concrete cases.
