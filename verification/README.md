# cardthropic

Solitaire solving and automation logic, verified with Verus: Spider and
FreeCell board models with their move rules, the solver heuristics and
best-first searches that decide whether a seed is winnable, the greedy
playthroughs used to hunt for winnable seeds, the robot-mode bookkeeping
(cycle, stall and tabu detection, and the per-tick planner decisions), the
board audits the robot runs in strict debug mode, and the text encodings of
saved sessions.

- `src/` is the verified library; the laws of the library are public proof
  functions. The contracts of the searches and playthroughs state what holds
  of every answer, how a cancel flag read on entry decides it (and, through
  the record of every later reading they return, that only a raised flag
  cancels them), that every move a playthrough plays is the chooser's pick
  and what each stop reason shows of the positions it passed through (a
  stall or stagnation only after the moves it names made no progress), how
  many distinct reachable
  positions a search expanded, and that a search whose frontier ran dry
  leaves no win reachable by the moves it always considers, where no two
  reachable positions share a hash. The order in which a search visits
  positions is not stated.
- `tests/` runs the library on concrete boards and texts.
- `app/` holds what stays unverified: the thread pools that run seed searches
  in parallel, the machine's thread count, and the floating-point ordering
  of rescue variants.
