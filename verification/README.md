# battery_health

Firmware logic of an ESP32 battery health monitor, verified with Verus.

- `src/` is the verified library: reading the web page's form posts (`request`,
  `commands`, `network`), the measurement store and its data point rule
  (`storage`), the battery readings (`battery`), the e-paper frame buffer and the
  panel's command scripts (`frame`, `panel`), and the over-the-air update's
  decisions (`ota`).
- `app/` is the program around it: ESP-IDF peripherals, Wi-Fi, the HTTP server,
  flash storage (CBOR), the watchdog and the embassy tasks.
- `tests/` exercises the library on concrete values.
