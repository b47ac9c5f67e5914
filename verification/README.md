# always_bind_window

Bind windows of different applications into groups that are activated,
minimized, restored and moved together.

The library (`src/`) holds the rules of the program, each with a contract
that Verus proves:

- `group` — windows, the matchers that recognise them (case-insensitive
  process, title-substring and class matching), groups, and the manager that
  binds live window handles to groups (bind, unbind, siblings, auto-binding a
  new window to the first matching group, making a group from picked windows).
- `overlay` — the lasso selection: the drag rectangle, which windows it
  selects (only those that show above the windows higher in Z order at one of
  a grid of sample points), and the overlay's response to mouse and key input.
- `picker` — which windows can be picked and their order.
- `monitor` — what a window event asks of a group (bring to front, minimize,
  restore, unbind), which applications follow a new frontmost application,
  the Z order of a group, and how siblings follow a drag.
- `tray` — what each hotkey and menu item does, the group a lasso selection
  makes, and the language and auto-start toggles.
- `hotkey_dialog` — key names of virtual-key codes, recording a hotkey, the
  dialog's buttons, UTF-16 text.
- `settings` — the settings, reading hotkey texts as modifiers and keys.
- `i18n` — the messages in English and Chinese.
- `text` — string helpers stated over character sequences.

Laws that relate several operations (reading back a binding, siblings being
symmetric, a removed group leaving no binding, the topmost window under the
lasso always being selected, and others) are public proof functions next to
the operations they speak of.

`app/` is the program around the library: settings file, logging, the tray
icon and global hotkeys. `tests/` run the library on concrete values.
