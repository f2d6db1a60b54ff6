# Brightness Control

Controls the brightness of the displays of a Windows machine: the internal display over WMI,
external monitors over DDC/CI. The percentage that is set is never below ten, so that nobody is left
with a black screen.

`src/` is the library, in Verus. It holds every scale and parser, every decision but the
floating-point geometry of the flyout, and the messages of the rules. It talks to no device: what a
process, a COM call or a monitor answered comes in as a plain value, and what to do next goes out as
one.

- `level`: percentages and the native ranges of monitors
- `text`, `numbers`, `wide`: texts, numerals, UTF-16
- `ident`: identifiers of displays and model tokens
- `wmi`, `wmi_native`: the internal display, through PowerShell and through COM
- `ddc`, `ddc_unsupported`: external monitors, and systems without DDC/CI
- `monitors`: the list of displays and its cache
- `tray`, `shell`, `display_listener`, `autostart`: the state and behaviour of the program

Laws that relate several functions stand at the end of each module as public proof functions.

`tests/` runs the library on concrete values. `app/` is the Tauri program around it; it needs the
tray icons under `icons/` and, to do anything, Windows.
