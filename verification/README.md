# philes

A minimal grid file manager. The library (`src/`) holds its state and rules,
proved with Verus; the program (`app/`) draws the window with iced and does the
file-system work the library asks for.

- `src/files.rs`: directory listings (dotfiles hidden, folders first, names
  ascending), name shortening, the chain of ancestors, the sidebar's volumes.
- `src/app.rs`: the state (`Philes`), how each event changes it (`update`), and
  the laws of selection, navigation and the address bar.
- `src/actions.rs`: the context menu, the clipboard, and the steps each menu
  action asks of the file system (`execute`, `finish`).
- `src/gui.rs`: what the window shows: status line, sidebar, breadcrumbs, grid
  rows, menu entries.
- `src/paths.rs`: the questions asked of `std::path` (trusted wrappers).
- `src/decimal.rs`: numbers in decimal.
