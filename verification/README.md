# Predator Sense

Control of fans, power modes, lighting and battery on Acer Predator and Nitro laptops under
Linux. The rules are a library whose behaviour is stated in contracts and proved by Verus; a
desktop application and a privileged helper stand around it.

## Layout

- `src/protocol/`: what the application and the privileged helper agree on: actions, paths,
  thermal profiles and their calibration, temperature ceilings, batteries.
- `src/privileged/`: what the helper decides: which job an argument list asks for, CPU profiles
  with their read back and roll back, the temperature ceiling, the boot splash, the keyboard's
  packets, what is put back at boot.
- `src/hardware/`: what the application decides: fan plans and the fan curve, the power policy,
  calibration, lighting, idle blanking, alerts.
- `src/config/`: the settings, and the files they live in.
- `src/ui/`: what the pages decide: schemes, colours, the geometry of the fan chart, texts.
- `src/text.rs`, `src/number.rs`, `src/order.rs`, `src/paths.rs`: text, numbers, order and paths
  as the rest speaks of them.
- `tests/`: the library from outside.
- `app/`: the program: reading and writing the machine, and the windows.

## Conventions

- Temperatures are in thousandths of a degree, as the kernel reports them. Sizes on the fan chart
  are in thousandths of a pixel; a position along its axis counts finer, so that none is rounded.
- Paths of the kernel and of the system are text. Those below a user's own directories are bytes,
  since nothing makes such a directory's name text.
- The library reads no file and starts no process. Functions take what was read, and give back
  what is to be written or asked for. Where reading and deciding alternate, a stage says which
  step is due and a function takes note of how it went.
- A `law_` function states something that holds across functions.
- What is believed without proof stands where it is used, with a comment that says what is
  claimed: a few functions of the standard library, and the user's configuration directory.
