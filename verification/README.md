# actioneer

The logic of a GTK client for GitHub Actions, verified with Verus: what the
repository, workflow, run and job views show and decide, proved against
contracts over plain models.

- `src/` — the verified library. Text and character helpers (`text`,
  `chars`), the GitHub records (`models`), error texts (`errors`), ANSI and
  workflow-log parsing and layout (`ansi`, `log_parse`, `log_render`,
  `log_style`), run digests and notifications (`digest`), run filters and the
  header counters (`filters`, `header`), run lists and their loading
  (`run_list`, `run_load`, `refresh`), timestamps and display text
  (`timing`, `formatting`), workflow rows, job rows and run actions
  (`workflow_row`, `job_rows`, `run_actions`, `workflow_list`), the log
  viewer (`job_logs`), sidebar selection (`selection`), sign-in (`auth`),
  preferences (`prefs`) and the window session (`session`).
- `tests/` — tests of the library.
- `app/` — a few GTK pieces that put the library's answers on screen
  (status dots, the run meta line, a workflow row's header, the status
  filter, the detail pane's status page, log tags, the confirmation dialog,
  the window's clamps and header bar) and read the clock. The windows, the
  dialogs beyond that, and the load, poll and refresh loops are not here.
