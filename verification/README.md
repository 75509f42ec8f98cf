# mate

The software of the Sea Owls underwater robot, as a verified library and the
program around it.

- `src/` is the library, verified with Verus: byte streams and the framed
  packet transport (`stream`, `framing`, `net`, `peer`, `worker`), the
  key-value store shared with the surface (`key`, `keyed`, `store`,
  `tokens`), the event bus between the robot's systems (`events`), the
  decisions of those systems (`systems`, `motor`, `cameras`, `sensors`,
  `link`, `indicators`), and the sensor protocols (`lis3mdl`, `depth`,
  `spi`, `peripheral`).
- `app/` is the robot program: sockets, threads, timers, serialization,
  system statistics, camera processes, and the floating-point control
  arithmetic.
- `tests/` runs the library on concrete inputs.
