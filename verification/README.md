# get_paper

A downloader for past exam papers. It searches a paper site for each ticked
subject, each year in a range and each exam season, downloads every paper
listed into `save_dir/<subject>/<year>/`, and shows the save directory in a
file tree.

- `src/` is the library, verified with Verus: text and number handling
  (`text`, `number`), paths and the file tree's mapping to the disk
  (`paths`), the data directory and the configuration file (`settings`), the
  download task as a state machine (`network`), double clicks in the tree
  (`clicks`), the subject list (`subjects`) and the window's messages
  (`events`).
- `app/` is the program around it: the window (fltk), the event loop, the
  network requests (reqwest, serde_json), the disk and the watcher on the
  save directory (hotwatch, walkdir), and opening files (open).
- `tests/` runs the library on concrete values.
