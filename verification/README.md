# drone_swarm

Flies missions with a swarm of PX4 drones over MAVLink, one mission file after the other.
Every drone is prepared first: connected, found, given its mission, and armed. It then votes
that it is ready, with the hash of its mission. Only when the votes satisfy the configured
quorum policy do the ready vehicles start; the others are aborted.

- `src/` is the library: votes and decisions, the supervisor, the vehicle actors and workers,
  the meaning of received messages, mission items and their hashes. It is verified with
  Verus, but for the trusted items named below. It performs no I/O: its state machines are
  told what happened and answer what to do.
- `app/` is the program around it: files, links, clocks, threads and tasks, and the
  floating-point geometry of missions.
- `tests/` runs the library on concrete values.

Of every mission phase the library proves, among other things, that in a gated phase no
vehicle is told to start before a quorum of valid votes is there, that the decision is made
once, that every other vehicle still under way is aborted, and that an aborted phase never
passes as complete (`src/supervisor_laws.rs`); and of every worker, that its vehicle does
not fly without the supervisor's approval (`src/vehicle_worker.rs`).

What the proofs rest on without proving it are the contracts of a few outside functions:

- `command_value` and `relative_alt_frame_value`: codes and names of the MAVLink dialect, from
  the `mavlink` crate.
- `char_array_text`: its conversion of a fixed array of characters to text.
- `sha256_digest` and `show_digest`: digests of the `sha2` crate, and how they are shown. Of a
  digest only its name, `sha256`, is known.
- `debug_text`: the quoted form of a text, known by the name `str_debug`.
- The specifications of `str::trim` and `str::to_ascii_lowercase` in `src/text.rs`.
