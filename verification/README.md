# audioman

A small Windows utility that controls per-application audio volume with global
hotkeys and speaks what it does. It runs without a window.

All hotkeys use Ctrl + Win + Alt.

| Key | Applications | Devices |
|---|---|---|
| Left / Right | Previous / next application | Previous / next device |
| Up / Down | Volume +2% / -2% | Device volume +2% / -2% |
| Page Up / Page Down | Volume +20% / -20% | Device volume +20% / -20% |
| Home / End | Volume 0% / 100% | Device volume 0% / 100% |
| M | Toggle mute | Toggle device mute |
| Enter | Pick the application's devices | Enable or disable the device |
| 0 | Go to device mode | Go to application mode |
| Backspace | Every application to 100% and unmuted | the same |
| Q | Quit | Quit |

## Layout

- `src/` is the verified library. It holds the decisions and the texts that are
  spoken, and it never touches the system.
  - `audio`: the session list and its selection; `attach`: how sessions are
    collected from the endpoints
  - `hotkeys`: what each key does; `control`: navigation, volume, mute and what is
    said about them
  - `devices`: what an enumeration lists; `enumeration`: which endpoints are asked
    for; `routing`: device paths and the routing of an application; `dialog` and
    `picker`: choosing an application's devices
  - `prism`: starting speech and what it is handed
  - `text`, `utf16`, `winpath`, `lists`: what the others are written with
- `tests/` run the library.
- `app/` is the program around it: windows, COM, the speech library, and volume
  arithmetic, which is in floating point.
