# obsbot-tiny3

Control of the OBSBOT Tiny 3 series webcam on Linux (sleep/wake, AI tracking,
gimbal, white balance), with the protocol logic verified in Verus.

- `src/` — the verified library. `crc` (CRC-16/USB), `frame` (the 60-byte V3
  vendor frame: build, parse, and the law that parsing gives back what was
  built), `device` (what each camera operation writes, the status block
  decoding, the GET/reply-mailbox matching, frame sequence numbers),
  `controls` (UVC control ids and the firmware-safe white-balance order),
  `config` (the `key = value` config file, presets, paths), `discover`
  (choosing the by-id node, the sysfs walk), `cli` (the `t3ctl` command line),
  `guard` (the white-balance guard's command line and state machine), `text`
  (character-level helpers with exact specifications), `op` (the operations a
  caller performs on the video node), `error`.
- `app/` — the program: the ioctl layer over libc, the filesystem and
  environment, `t3ctl` and `t3-wb-guard` (picked by the name the program is
  invoked under). It performs what the library decides.
- `tests/` — tests of the library on concrete values.
