# pam

The verified core of the PAM tooling for PHP applications: the command-line
parsers, manifest and catalog validators, wire formats, supervision and
rollout decisions, cleanup planning, sandbox policies and registry trust
checks, each with a contract proved by Verus.

- `src/` is the library. Every function there is verified; calls into
  outside crates (`sha2`, `ed25519-dalek`, `semver`, `base64`, `http`,
  `bytes`) and a few std conversions stand behind small trusted wrappers,
  each with a doc comment saying what its contract claims.
- `tests/` runs the library on concrete inputs.
- `app/` is the unverified edge: reading files, the environment and `/proc`,
  serde documents, sockets, raw system calls for Landlock and seccomp, and
  floating-point formatting. It gathers plain values and hands them to the
  library. It carries out the cleanup and sandbox plans; the supervisor
  commands (`up`, applying an ecosystem, starting a traffic ingress, plugin
  discovery, registry key rotation) have only their argument conversions
  here, with no driver that spawns or writes state.
