# mdgreet

The verified core of a Material Design 3 greeter for greetd, written in
Verus. Every function under `src/` carries a contract that Verus proves.

- `src/config.rs`: configuration and its defaults.
- `src/utils/`: the login-state cache (an LRU map of users to their last
  session, with laws on what a write, a recall and a reload give back),
  the greetd authentication protocol as a state machine, discovery of
  users and sessions (passwd, AccountsService, `.desktop` files,
  `login.defs`), text helpers, shell-word splitting and seed colours.
- `src/app/`: the user and session lists, the restored selection, login,
  power commands, the clock texts and the theme choice.
- `app/`: the program around the library: command line, files, D-Bus,
  the greetd socket, logging, images and a terminal front end.
- `tests/`: tests of the library on concrete values.
