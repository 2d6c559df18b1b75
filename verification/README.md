# odilia

The core of the Odilia screen reader for the Linux desktop, written in Verus: the functions in
`src/` carry contracts that the verifier proves. The exceptions are the methods of the
`CacheDriver` trait, which callers implement to reach the applications, and
`Cache::lookup_relations`, which only hands the driver's answer on; the verified code around
them states what holds whatever the driver answers.

- `src/keyboard.rs`, `src/keys.rs`, `src/key_order.rs`, `src/keyboard_laws.rs`: key sets, key
  combos per mode and the key-grabbing state machine, with the laws it keeps (a pressed combo
  raises its event exactly once, releases and pointer events pass through, the activation key
  is always swallowed).
- `src/input.rs`, `src/text.rs`: parsing of key bindings such as `C|Browse|Odilia+h:2`.
- `src/role_set.rs`, `src/interfaces.rs`, `src/states.rs`: sets of roles, interfaces and states.
- `src/accessible.rs`, `src/cache_item.rs`, `src/tree.rs`, `src/cache.rs`,
  `src/event_handlers.rs`, `src/relations.rs`, `src/cache_laws.rs`: the cache of accessibles,
  what each accessibility event does to it, and the requests it answers. The applications are
  asked through a `CacheDriver` that the caller supplies.
- `src/navigation.rs`: the decisions of structural navigation.
- `src/command.rs`, `src/events.rs`, `src/settings.rs`, `src/paths.rs`, `src/types.rs`,
  `src/errors.rs`, `src/modes.rs`: commands, events, configuration and errors.

`app/` holds the keyboard input daemon (key grabbing, the socket to the screen reader) and the
accessibility-bus driver of the cache; `tests/` exercises the library.
