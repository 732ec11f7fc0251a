# backupr

A command-line tool that copies the recently modified files of a folder into
a backup directory whose name can carry date and time tokens (`-date`,
`-dateUS`, `-time`, `-zone`, ...).  The decisions of the tool are a library
verified with Verus; the program around it only reads the environment, walks
the folder and copies files.

- `src/args.rs`: command-line parsing as a step function over a parsing
  state, and `parse_args`, proved equal to running the steps in order.
- `src/clock.rs`: moments as plain values, and the calls into the `time`
  crate that read the clock and render dates, offsets and names.
- `src/paths.rs`: the default backup directory and the paths a file is
  copied to, cut at byte offsets of their UTF-8 encoding.
- `src/select.rs`: which files are backed up, by extension and age.
- `src/text.rs`, `src/number.rs`: character and decimal utilities.
- `app/main.rs`: the program.
- `src/help.rs`: the help text.

## Behaviour

The tool follows its help text:

- `-t` reads `s`, `h`, `d`, `m` (30 days) and `y` (365.2425 days); a file is
  backed up when it is younger than the limit, and older files are skipped
  while the walk goes on.
- Time tokens are separated by `.` unless `-arg-seperator` says otherwise;
  the first token starts a new directory level (`/`).
- `-dateEU` writes year, month, day; `-dateUS` writes month, day, year.
- `-time` writes the hour and minute with two digits each, joined by the
  separator (`09.07`).
- `-zone` writes the offset of the zone chosen last: UTC (`+00.00.00`) at
  the start and after `-zoneUTC`, the local offset after `-zoneLocal`.
- A file is copied to the backup directory, `/`, and its path relative to the
  backed-up folder.
