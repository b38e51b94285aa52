# hexapod

Verified core of a six-legged walking robot: the protocols of its sensors and
power monitor, its occupancy map, its gait bookkeeping and its speech cache,
written in Verus with `requires`/`ensures` contracts and proved laws.

## Layout

- `src/` — the verified library (Verus).
  - `crc`, `packet`, `assembler`, `ld19`, `filter`: LD06/LD19 LiDAR packets —
    checksum, field decoding, byte-wise assembly, stream framing (with the law
    that feeding a stream in pieces frames it as a whole), near-range grouping rule.
  - `grid`: occupancy grid of clamped log-odds, the integer line walk of a beam,
    beam integration and scan scoring.
  - `text`, `nmea`: field splitting and `from_str_radix`-exact number reading;
    NMEA checksums, sentence kinds, fix quality and satellites.
  - `ubec`: battery-monitor messages, the power state machine, command lines.
  - `legs`, `gait`, `servo`: leg identities, gait cycling and disabled legs,
    servo pins, right-side mirroring and the skipping of repeated pulses.
  - `tts`: speech jobs, SHA-256 cache keys (through `sha2`) and cache bookkeeping.
  - `imu`, `sim`, `web`: sensor register decoding, the simulators' generator,
    HTTP answer bodies.
- `tests/` — tests of the library on concrete values.
- `app/` — ordinary Rust around the library: serial ports, I2C, HTTP (axum and
  reqwest), audio playback, threads, files, and the floating-point geometry
  (point clouds, SLAM pose search, kinematics, walking engine).
