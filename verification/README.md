# esp_cam_tank

A camera tank driven from a browser: an ESP32-S3 firmware streams JPEG frames and
telemetry over a websocket to a relay server, and browsers send arrow commands back
through the same server.

- `src/` is the verified library.
  - `tank/` is the firmware's logic: reading `{"dir":...}` commands (`proto`),
    the camera and telemetry frames it writes (`proto`), what each command does to
    the two H-bridge channels (`motor`), thread priorities (`tasks`), the telemetry
    schedule and uptime (`camera`), the reaction to websocket events (`ws`) and the
    build-time settings (`config`).
  - `remote/` is the relay's logic: the wire texts (`protocol`), the registry of
    connected devices and browsers and who receives which frame (`server`), and a
    session's read loop (`ws`).
  - `laws.rs` ties the two together: a command the relay writes is read by the
    tank as the same direction.
- `app/` holds the programs around it: the actix-web relay on the host, and the
  ESP-IDF firmware (compiled only for `target_os = "espidf"`).
- `tests/` runs the library on concrete values.
