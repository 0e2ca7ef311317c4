# ankora

The verified core of the Ankora desktop shell, a Tauri application for a
Devuan-based Linux system. The library (`src/`) decides everything the shell
answers; the program around it (`app/`) performs the file, process and
network work and hands the results to the library.

Modules:

- `text`: trimming, searching, lines, pieces, ASCII case and numbers on the
  characters of a string.
- `trusted`: the calls into the standard library, `base64` and `serde_json`,
  with the contracts taken on trust.
- `desktop`: reading XDG `.desktop` files and gathering launchers by id.
- `shell`: terminal commands and their answers, launching, keyboard layout
  and brightness.
- `packages`: installing a Debian package and choosing its launcher.
- `documents`: which documents are offered and how an opened one is shown.
- `assistant`: requests to the local model, reading its replies and action
  tags, and the answers given without the model.
- `installer`: the target disk, the installation script and its report.
- `storage`: the disks read from `lsblk` output.
- `system`: telemetry and the settings directory.
