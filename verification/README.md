# video_stacker

Stacks client videos over dummy videos with ffmpeg. A command line taken from
`ffmpeg_commands.txt` has three placeholders, `TOP_VID`, `BOTTOM_VID` and
`OUT_VID`; each client video is stacked over each of the first `quantity` dummy
videos, and the results go to `<output_folder>/stacked_video<n>.mp4`.

- `src/` is the library, verified with Verus: the settings (`args`), the error
  type (`error`), decimal rendering (`text`), the building of the commands
  (`command_builder`), the checks on the settings (`validation`) and the
  properties that hold across them (`laws`). What the disk shows is handed to it
  as plain values.
- `app/` is the program: it reads `config.toml` and the disk, calls the library
  and runs the commands in parallel with progress bars.
- `tests/` runs the library on concrete values.

The program first checks `video_stacker.lic` through a licence crate that is not
published; `app/` names it, so `app/` builds only where that crate is at hand.
