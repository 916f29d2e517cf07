# drt

`met` generates configuration files from templates (`@@name@@` is replaced
by the value bound to `name`) and runs commands. By default it only reports
what it would do; `--interactive` asks before each change and `--active`
makes the changes.

The library under `src/` holds the logic, verified with Verus:

- `vars` – the variables of a run (a map from names to values);
- `template` – finding the first placeholder of a line, filling it in, and
  generating a whole file from a template;
- `text` – splitting text into lines and words, joining words;
- `files`, `fs` – the files involved, and the steps that make sure the
  directory of a destination exists (or could be created);
- `diff`, `update` – what to do with a destination once it was compared with
  the generated file;
- `cli`, `drtrun` – reading the command lines and planning each item;
- `cmd`, `exec`, `userinput`, `error` – program lookup, command output,
  answers typed by the user, errors and report lines.

`app/` holds the program: option parsing, the terminal, the file system and
the processes, each step asked of the library in turn.
