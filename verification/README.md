# rars

A status bar for Hyprland on a Wayland layer surface: a workspace indicator,
a clock, and a notification daemon beside it.

- `src/` is the library, verified with Verus: the workspace indicator's state
  (`hyprland`, kept in an `indexmap::IndexMap`), the bar that routes events to
  its modules (`bar`, `clock`), the notification store (`notification`),
  colour codes and integer parsing (`themes`, `digits`), the anchor setting
  (`anchor`), where the configuration is read from and where a parse error is
  pointed at (`config`), which UPower devices are batteries (`battery`) and
  the single-instance decision (`instance`).
- `app/` is the program around it: the iced layer-shell window, the D-Bus
  services, reading the configuration and the PID file.
- `tests/` runs the library on concrete values.
