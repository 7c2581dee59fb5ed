# openlogi_gui

The decision logic of the OpenLogi macOS front end (a configurator for
Logitech mice and keyboards), written in Verus and proved against its
contracts.

- `src/` — the verified library:
  - `nav` — sidebar selection, what the main window shows, window titles;
  - `settings_pages` — settings sections and their headings, language
    options and the language-select round trip, General/Permissions page rows;
  - `branding` — release vs dev identity (name, LaunchAgent label, lock
    file) and whether a packaged app bundles the device assets;
  - `device` — device records, the detail tabs each device gets (lighting
    for wired keyboards only), card photo, card and description rows, file
    URLs;
  - `tray`, `tray_row` — status-item install state, the fixed device rows of
    the tray menu, Dock visibility, event posting, row contents and the
    battery donut registry, localized Open/Quit titles;
  - `picker` — the action catalog grouped by category and the searchable
    picker rows;
  - `icon` — the app-icon surface repair (content box, scale to full bleed,
    matte repaint) and the `.iconset` renderings;
  - `text`, `theme` — shared string helpers and colours.
- `tests/` — tests of the library on concrete values.
- `app/` — the developer tool (`xtask`: icon, bundle, DMG, signing) and the
  build-identity probe. The GUI itself (windows, the status item, the menu
  drawing) is not here: the library states what it shows, and a front end
  built on a UI toolkit would draw it.
