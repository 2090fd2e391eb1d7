# vpn_menu

A VPN menu for NetworkManager (a COSMIC panel applet that lists, connects, edits,
imports and answers secret requests for VPN and WireGuard connections), with its
logic verified by Verus.

- `src/` is the verified library: the connection model and its display order, the
  text formats (durations, byte counts, `.name` plugin files, the auth-dialog
  protocol), the mapping of NetworkManager's state and settings onto the model, the
  connection editor, and the applet's state machine (`applet::AppletState`), which
  turns each user action or NetworkManager event into a new state and an `Effect`
  to perform. `src/laws.rs` proves properties that span several functions.
- `app/` is the program around it: D-Bus through `nmrs`, files and processes, the
  clock, desktop notifications and the COSMIC widgets. It performs the effects the
  library asks for and hands the results back.
- `tests/` runs the library on concrete inputs.

Headless debugging: `--dump` prints the connections once, `--watch` reprints them on
every NetworkManager change.
