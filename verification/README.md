# byte_check

The decision logic of a pre-scan environment gate: seven checks (process
integrity, injection and hook sweep, clock sync, screen access, domain
access, antivirus mode, tamper traces), each reduced to a function from what
it read on the system to a report, the fix plans for the fixable ones, and
the runner that turns reports and re-checks into an eligibility outcome.

- `src/` is verified with Verus. `text` holds the character-level text
  operations with their specifications, `signatures` the signature lists,
  `checks` the checks and the runner, with the laws of the runner and of the
  fixes as proof functions.
- `app/` is the program around it: reading `/proc`, files, the registry and
  the network, running fixes, and the window.
- `tests/` runs the library on concrete snapshots.
