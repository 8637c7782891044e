# omnicore

Verified device models for several game consoles, written in Verus:

- Saturn: SCU (interrupts, timers, DMA requests), SMPC (INTBACK and
  controller reports), VDP1 (command walk, sprites, lines, clipping),
  VDP2 (normal and rotation backgrounds, windows, mosaic, colour offset,
  priority composition), the SCSP's register side (key-on, loop cursors,
  MIDI FIFOs, timers, interrupts, DMA) and effect DSP, and the CD block
  (command interface, sector buffer, selector filters, drive position, and
  its save state).
- Sega CD: the shared register chip (gate array), the graphics ASIC
  (stamp rotation and scaling into word RAM), the PCM sound chip, and the
  CD drive's position and status with the CDD command protocol (BCD digit
  commands, the nine-byte status block and its checksum nibble).
- Sega 32X: the cartridge's MARS module header, the board's system
  registers, DREQ FIFO, framebuffers, fill engine and picture overlay, and
  the PWM sound unit.
- SNES: cartridge detection and mapping (LoROM, HiROM, ExHiROM, SA-1,
  OBC-1, DSP ports), the SA-1 register set, arithmetic unit and DMA, and
  the main bus's WRAM, joypad and DMA registers.
- Save states: the Saturn CD block, SCU, SMPC, VDP2 and SCSP effect DSP,
  the Sega CD register chip and graphics ASIC, and the 32X PWM unit each
  write their state in a byte layout of their own and check and read it
  back; `src/state_bytes.rs` holds the little-endian fields and
  length-prefixed runs they share.

`src/` holds the library; every function in it carries a contract that
Verus proves. Each type has a model (spec functions or a `View`), and the
contracts state results over those models. Public proof functions state
the laws that span several calls (what a read gives back after a write,
what a CD save state restores, what a drive tick may change, how the
controller serialises its buttons, how filter reversal acts).

`app/` holds the host-side code Verus does not check: the floating-point
VDP1 polygon rasteriser, the SCSP's voices and mixer, the float output of
the PCM and PWM sound units, and the CD drive's time loop that reads
sectors from a disc image between the library's decisions.

`tests/` exercises the library on concrete values.
