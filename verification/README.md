# HP Thermal Control

A tray program for HP laptops, with a privileged service behind it, that switches
between the thermal modes of the firmware: Performance, Balanced, Cool and Power Saver. It can
also listen to the fans and choose the quieter of two modes where the difference is
heard.

## Layout

- `src/` is the library. It decides everything and touches nothing: each function
  takes plain values and says what is to be done, with a contract that Verus proves.
  A course of several steps (a start, an installation, a measurement, a request) is a
  function from the step that was taken and what came of it to the next step.
- `app/` is the program. It carries out what the library decides, by way of Windows,
  and it computes what is computed in floating point.
- `tests/` run the library on given values.
- `extras/` holds the layout of the one dialog that is a resource of the program.

## Modules

| Modules | About |
| --- | --- |
| `mode`, `protocol`, `pipe`, `service` | the wire between tray and service, its cache, and on what footing the service starts |
| `wmi_com`, `nvml` | calls into the firmware and the graphics card |
| `calls` | what is asked of service, firmware and machine, on record and in its order |
| `hwinfo`, `consent`, `capability` | which machine this is, and whether to trust it |
| `install`, `launch`, `onboarding`, `win_harden` | setting up, starting, and locking down |
| `tray`, `menu` | the icon, its menu and the Fn+F12 key |
| `audio`, `calibration`, `capture`, `measure`, `meter`, `tracks`, `wav` | listening to the fans |
| `app`, `log`, `calendar` | names, lines of the event log, dates |
| `bytes`, `path`, `single`, `text`, `wide` | bytes, paths, the order of floating-point numbers, text |

Floating-point numbers stand in the library as their bit patterns. It compares and
orders them exactly; arithmetic on them is left to `app/`.

## Trust

Four things are believed of the standard library and not proved: what
`String::push` and `char::from_u32` do, that `str::to_lowercase` depends on the text
alone and lowers the letters of ASCII, and that `String::from_utf8_lossy` depends on
the bytes alone and gives back what is valid. Each is stated where it is declared, in
`text` and `wide`.
