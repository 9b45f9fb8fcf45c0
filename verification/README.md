# DCS kneeboard

A kneeboard over the simulator: checklists that are read aloud, and driven by
voice, keyboard and game controllers.

- `src/` is the verified library: moving through pages, the waiting after a jump
  to a section, routing what was said, finding sections and tabs, pronunciation,
  bindings, messages, recording, and drawing.
- `app/` is the program around it: the window, files, speech engines, the
  microphone, speech recognition and game controllers.
- `tests/` runs the library.

Numbers that are not whole, such as similarities, are held in the library as
their bit patterns, and compared by them.
