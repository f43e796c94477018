# traffic_light

The verified core of a two-way traffic-light controller for the STM32F446.

- `src/` is the library, verified with Verus:
  - `constants` — pin numbers, intensity levels, blink rates, timing;
  - `gpio` — the BSRR and MODER words that drive and configure port-A pins;
  - `indicator` — the traffic-intensity buttons (debounce, level cycling,
    blink rate) and the blink timer of each side's indicator lamp;
  - `uart` — the 64-byte receive buffer: adding, reading bytes and lines.
- `app/` is the firmware around it: clock, timer and UART set-up, the
  interrupt handlers and the statics they share.
- `tests/` runs the library on concrete values.
