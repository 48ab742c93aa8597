# egui_tester

Black-box acceptance testing for egui applications: a sealed testbed with its own
display server and disposable tree, native input, captured pixels, journals that
the product writes of its own frames, and stories that tie an action to what
followed it.

- `src/` is the verified library. It holds every decision: paths and environments
  of the testbed, the sandbox's arguments and its system-call filter, unit states,
  journals and their readers, conditions, reaction budgets, frame cadence, pixels,
  gestures, window search, stories, films, and Android choreography. Each function
  states in its contract what it returns.
- What the library does to a host, a display, or a keyboard it asks of a stage that
  its caller hands in, one act at a time. The contracts say which acts are asked for,
  how often, and in which order.
- `app/` is the harness around it: processes, files, sockets, the X server, egui
  contexts, serialization, and floating-point coordinates.
- `tests/` runs the library on concrete values.

Outside calls stand behind small trusted functions whose contracts say what is
believed of them: PNG coding, bitmap glyphs, key names, the packet-filter compiler,
image pixels, and the monotonic clock.
