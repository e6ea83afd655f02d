# sakipet

The verified core of SakiPet, a desktop companion whose pets chat with their
owner, remark on what they see, talk and play with each other, and keep
relationships and memories.

- `src/` is the library, written in Verus: every function carries a contract
  and is proved against it. The modules cover the pets' life state, chat and
  prompt shaping, model request payloads and streamed replies, memory
  records and recall, the social scene catalogue, scene planning and
  relationships, the desktop-environment monitor, the companion schedulers,
  football touches and screenshot fingerprints. Public proof functions named
  `law_*` state properties that hold across calls.
- `app/` is the host side in plain Rust: serde forms of the library's types,
  files, keychain and network access, the floating-point layout and ball
  physics functions, and the tasks that drive the library (chat, heartbeat,
  pet conversations, the schedulers, the environment monitor, scene play).
  The desktop shell itself (windows, their movement and the football match
  loop) is not part of this crate; the tasks reach it through the `Host`,
  `SceneHost` and `MonitorHost` traits.
- `tests/` runs the library on concrete values.
