# backuprestore

The verified core of a one-click Windows backup and restore tool. A task is
prepared on the running Windows, the machine boots into Windows RE (or a
Windows PE entry), and a recovery program captures or applies a WIM image,
repairs the boot configuration and records every stage durably so that an
interrupted run can be resumed.

`src/` is the library, verified with Verus:

- `model`, `task`, `paths`: the task record, its validation rules and the
  stage state machine.
- `plan`, `recovery`, `mounting`, `env`: what a recovery run does, in which
  order, and which volumes it may touch.
- `backup`, `bcd`, `winre`, `digest`, `store`: image metadata, boot store
  parsing and checks, the WinRE payload contract, digests and the task store.
- `parsing`, `json`, `percent`, `progress`, `sizes`, `display`, `labels`,
  `gui`, `pe`: command output, reports, progress lines and the texts and
  decisions of the desktop and PE front ends.
- `text`, `number`, `time`, `outside`: character and number primitives, and
  the trusted wrappers around `uuid`, `sha2` and `chrono`.

`app/` is the command-line program around it: file and process I/O, serde
records, and the loop that carries out a recovery plan step by step.
`tests/` exercise the library through its public interface.
