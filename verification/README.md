# PC Checker

Pre-purchase hardware inspection for used Windows machines: read the machine, judge what was
read, and explain every judgement.

* `src/` is the library, verified with Verus. It decodes what firmware tables, device drivers
  and vendor libraries hand out, plans stress runs and keeps their state, and turns
  measurements into findings. It performs no I/O: it takes what a call returned, and says what
  to do next.
* `app/` is the Windows program around it: the system calls, the load kernels, JSON, and the
  window (a Tauri shell, on Windows only).
* `tests/` run the library on recorded and synthetic data.

Two ideas run through the library.

A metric that cannot be read is not a zero. `Reading` holds either a value or the reason why
there is none, and every decoder says exactly when it gives which.

A finding must justify itself: what was observed, what was expected, on what basis, and what to
do about it. `analysis::laws` proves that every finding does, that reports come worst first and
lose nothing in the sorting, and that a machine is never accused on missing data.

Quantities are exact: shares are ratios, clocks are hertz, power is microwatts, temperatures are
hundredths or eighths of a degree. Floating point appears in `app/` only: in the load kernel, and where values are shown.

The program expects its data files in `data/` beside the executable: `cpu_specs.json` with the
rated clocks of known parts, and the PawnIO modules under `pawnio_modules/`.
