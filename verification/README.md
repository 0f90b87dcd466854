# love_display

Firmware logic of a small WiFi message display (an ESP32 driving a
128x64 SSD1306 screen). The device polls a server for the latest message
addressed to it and shows it: a 32x32 bitmap for a known emoji, or the
text with accents stripped, wrapped on at most four lines.

- `src/` is the verified library (Verus): character facts (`chars`),
  accent stripping (`accents`), word wrapping (`wrap`), emoji recognition
  and bitmaps (`emoji`), screen layout (`layout`), decimal spelling of
  integers (`decimal`), reading the server's reply (`reply`) and the
  polling state and start-up decisions (`session`).
- `app/main.rs` is the firmware's `main`: display, WiFi and HTTP drivers,
  sleeping and drawing, with every decision taken by the library.
- `tests/` runs the library on concrete inputs.
