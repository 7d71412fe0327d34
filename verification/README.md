# bbc_micro_emu

A BBC Micro Model B machine model whose behaviour is stated in Verus
contracts and proved: memory map and paged ROMs, SHEILA dispatch, the two
6522 VIAs (timers, keyboard matrix, IC32 latch), 6845 CRTC, Video ULA,
8271 floppy controller with SSD/DSD images, SN76489 sound, uPD7002 ADC,
6850 ACIA, Tube FIFOs, the software renderer (teletext and bitmap modes),
the host-input path into the MOS, and the binary snapshot format.

Layout:

- `src/` — the verified library. Each device has a spec model (`*_value`,
  `after_*`, `ticked` ...) that its executable methods are proved against;
  public `lemma_*` proof functions state properties that hold across calls
  (tick additivity, FIFO order, sector and RAM read-back, snapshot round
  trip, key-matrix injectivity, one end-of-conversion pulse per ADC
  conversion). Message texts, decimal numbers included, are built by
  verified code.
- `tests/` — ordinary Rust tests of the library.
- `app/` — the program: command line, ROM/disc/snapshot files, the 6502
  core, window, sound and gamepad.
