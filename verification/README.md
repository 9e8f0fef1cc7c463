# mini_os

The core of a small Cortex-M4 (STM32F446) kernel, written in Verus and
verified: MPU region programming, isolated process slots with kernel-only
grant regions, a round-robin scheduler over an MPU-aligned stack pool, the
supervisor-call dispatcher, a mediated peripheral driver framework, fault
diagnosis, and the bookkeeping of the benchmark applications.

Layout:

- `src/` — the verified library. Hardware is never touched here: functions
  compute register values, stack images and decisions, and return them.
  - `mpu.rs` — region size encodings, attribute words, region programming
    and decoding.
  - `process.rs` — process slots, their MPU regions, grant memory and the
    isolation checks.
  - `sched.rs` — task control blocks, the stack pool, task spawning and
    killing, context save and switch decisions, SysTick.
  - `svc.rs`, `syscalls.rs` — the supervisor-call ABI, the kernel's
    dispatcher and the application side of each call.
  - `drivers.rs` — resource ownership, the driver registry and the GPIO
    driver.
  - `board.rs`, `led.rs`, `fault.rs` — GPIO register values, LED signals,
    fault register decoding.
  - `registry.rs`, `appdecl.rs` — the application registry and the
    arguments and stack layout of an application declaration.
  - `bench.rs`, `tasks.rs` — benchmark statistics and message formats, and
    one step of each sample application.
- `tests/` — tests of the library on concrete values.
- `app/` — the firmware around the library: register access, the exception
  handlers and their assembly trampolines, RTT logging, and the
  application tasks.
