# wifi_hello

An e-paper weather station for an ESP32 with a 2.13" panel: every ten
minutes it asks OpenWeather for the current weather and redraws the date,
the temperature and a weather icon.

- `src/` is the verified library (Verus):
  - `text`: the fixed-capacity `heapless` buffers, behind trusted wrappers;
  - `calendar`: the date label "DD Mon YYYY" of a UNIX timestamp, with the
    proleptic Gregorian calendar stated as spec functions and `chrono`
    called for the date;
  - `api`: the request URL and the TLS seed;
  - `dashboard`: the refresh schedule (fetch, redraw, rest) as a state
    machine, with its laws;
  - `panel`: the panel layout, and the weather icon: its BMP file decoded
    by `tinybmp` behind a trusted wrapper, each pixel moved and inverted;
  - `wifi`: seeds from two random words and the Wi-Fi link supervisor.
- `app/` is the firmware around it: hardware set-up, networking, JSON
  decoding, drawing, and the loops that run the two state machines.
- `tests/` exercises the library.
