# bambu_monitor

A desktop monitor for Bambu Lab 3D printers in LAN mode: it subscribes to the
printer's MQTT reports, keeps the printer's state, serves it over a small HTTP
API with a server-sent event stream, and shows progress in a tray icon.

`src/` is the verified library (Verus):

- `json` — the document model the report logic reads.
- `report`, `printer` — how a printer report updates the monitor's state; AMS
  colours; the state's initial value.
- `mqtt`, `server` — when and how the client connects, what each broker event
  does, the connection settings and the HTTP configuration endpoints.
- `http` — request-line and header reading, routing, response bytes, the
  event stream's decisions.
- `tray` — progress levels, the icon's pixel font, colours and tooltips, the
  floating window, completion announcements.
- `storage` — printers by id, the active printer, settings, file locations and
  print-history records.
- `text`, `stdtext`, `clock` — text building, contracts for std's Unicode text
  functions, and the wall-clock stamp.

`app/` wires the library to Tauri, rumqttc, the network, the file system and
SQLite.
