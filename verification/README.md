# arx

A command-line tool for zip, tar and tar.gz archives: pack, unpack, list,
describe, and rename an entry inside an archive.

- `src/` is the verified library (Verus): format detection by extension,
  the exclusion patterns (globs with `*`, or substrings) and their laws,
  entry names, entry counts, rename plans, and the choice of action from the
  command line.
- `app/` is the program around it: argument parsing, progress bar, and all
  reading and writing of files and archives.
- `tests/` runs the library on concrete values.
