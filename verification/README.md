# tauri_app

The core of a desktop and mobile application, written in Rust and verified with Verus.

An application is described with a `Builder`, built, set up, and then run by an event loop until it
exits. This library holds what is decided on the way: which steps building takes on which system,
which windows are created, who is told of an event and in which order, what a change of the menu
does to each window, what is given up before the process ends, and where an asset is looked for.

The library does not touch the system. A function that needs something of it returns what is to be
done, as a value; where the outcome matters, it is handed back. So every decision has a contract,
and the contracts are proved.

- `src/` is the library. Each module has the specification functions that its contracts speak of.
  The functions whose names begin with `law_` state what holds across several operations.
- `app/` runs applications on a platform: it does what the library asks for, and keeps the
  functions that the user gave.
- `tests/` runs the library on concrete values.

Trusted are the calls into the `http` and `serialize-to-javascript` crates and one into the standard
library. Each stands in a function of its own whose comment says what is claimed of it. URLs of the
`url` crate and the paths of dropped files are only handed on.
