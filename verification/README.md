# commands_applet

The verified core of a COSMIC panel applet that runs user-configured shell
commands from a nested menu (see the example configuration in `app/app.rs`).

- `src/` is the library, checked by Verus:
  - `path.rs`: menu paths (titles joined with `/`), splitting and its laws;
  - `menu.rs`: the menu tree, lookup of an entry by path, and its laws;
  - `applet.rs`: the applet state and the state machine that handles messages;
  - `layout.rs`: the rows of the popup menu;
  - `command.rs`: the command lines that run an entry, directly or in a terminal;
  - `text.rs`: character helpers.
- `app/` is the COSMIC application around it: windows, widgets, reading the
  JSON configuration and starting processes.
- `tests/` exercises the library on concrete values.
