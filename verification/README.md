# MacWindowResizer

Resizes and places the new main windows of configured macOS applications, once
per window, and keeps whatever the user changes by hand afterwards.

- `src/` is the verified library: reading the configuration, tracking windows,
  deciding on adjustments, and the order of the installation tasks. Each public
  function states what it does in its contract, and the `law_…` proof functions
  state what holds of the library as a whole.
- `tests/` runs the library on concrete values.
- `app/` is the program around it: AppKit, the accessibility interface, files
  and processes. It needs macOS, an `assets` directory with the icon, the asset
  catalog, `Info.plist` and `LaunchAgent.plist`, and Xcode's command line tools.

A configuration names applications by their bundle IDs. Sizes and coordinates
are logical points; coordinates may be left out. The configuration is built into
the program: edit the constant `EMBEDDED_CONFIG` in `src/config.rs`, and refresh
the installation.

```toml
[com.apple.finder]
width = 860
height = 660
# x = 434
# y = 218
```

Called as `task`, the program takes one of these words:

- `enable` builds, installs and starts it, and starts it at login;
- `disable` removes the app, its login service, its permission and its logs;
- `refresh` does the second, and the first if that succeeded.
