# wsup

A terminal monitor for processes that listen on localhost ports, with the
logic that decides what it shows and does written in Verus and proved
against its contracts.

- `src/` is the verified library: parsing of `lsof`, `netstat` and `ps`
  output (`ports`, `scan`), the process records (`process`), the stable
  sorts (`order`), the screen state with search, navigation, histories and
  statistics (`app`), key handling (`keys`), the saved projects
  (`projects`), release numbers (`version`), text formatting (`text`) and
  the sizes of the drawn parts (`layout`).
- `app/` is the program around it: command-line options, the terminal,
  the system queries, the project file, the update check and drawing.
- `tests/` runs the library on concrete cases.
