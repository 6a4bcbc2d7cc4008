# gpu_screen

A character-cell screen that a Lua program draws on through component calls
(`gpu.set`, `gpu.getResolution`, `gpu.setForeground`, `gpu.setBackground`,
`os.sleep`), verified with Verus.

- `src/` is the verified library: the screen grid and its cursor (`screen`),
  colours (`color`), the Lua values the calls take (`value`, `lua_text`), the
  component calls themselves (`component`), the status line (`label`), and
  laws that relate them (`laws`).
- `app/` runs the Lua program under `piccolo` and shows the screen in an
  `eframe` window; it converts between Lua values and the library's values
  and keeps the clock, which is a float.
